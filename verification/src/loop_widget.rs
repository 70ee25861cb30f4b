//! Decisions of the loop widget: tooltips, menu entries and border.

use vstd::prelude::*;

use crate::app_model::GlobalControlState;
use crate::composite::{CompositeKind, LoopMode};
use crate::ids::LoopId;
use crate::connection::AppIntent;
use crate::text::{decimal, u32_text};

verus! {

/// What the loop widget reads of a loop.
#[derive(Clone, Debug, PartialEq, Eq)]
pub struct LoopState {
    pub id: LoopId,
    pub name: String,
    pub mode: LoopMode,
    pub length_frames: u64,
    pub has_audio: bool,
    pub has_midi: bool,
    pub empty: bool,
    pub selected: bool,
    pub targeted: bool,
    pub composite_kind: CompositeKind,
    pub selected_composite_kind: CompositeKind,
    pub next_mode: LoopMode,
    pub next_transition_delay: Option<i32>,
    pub sync: bool,
    pub play_after_record: bool,
    pub has_recorded_fx_state: bool,
}

/// The timing word of an action tooltip.
pub open spec fn spec_action_timing(sync: bool) -> Seq<char> {
    if sync { "synced"@ } else { "unsynced"@ }
}

pub fn action_timing(sync: bool) -> (r: &'static str)
    ensures
        r@ == spec_action_timing(sync),
{
    if sync {
        "synced"
    } else {
        "unsynced"
    }
}

/// The tooltip of a loop action: the action, for how many cycles and whether playing follows
/// when it records, whether other loops of the track stop when it solos, and its timing.
pub open spec fn spec_action_tooltip(action: Seq<char>, controls: GlobalControlState, records: bool, solo: bool) -> Seq<char> {
    let cycles = if records && controls.apply_n_cycles > 0 {
        " for "@ + decimal(controls.apply_n_cycles as nat) + " "@
            + if controls.apply_n_cycles == 1 { "cycle"@ } else { "cycles"@ }
    } else {
        Seq::empty()
    };
    let then_play = if records && controls.play_after_record { " then play"@ } else { Seq::empty() };
    let solo_text = if solo && controls.solo { " and stop others in same track(s)"@ } else { Seq::empty() };
    action + cycles + then_play + solo_text + " ("@ + spec_action_timing(controls.sync) + ")"@
}

pub fn action_tooltip(action: &str, controls: &GlobalControlState, records: bool, solo: bool) -> (r: String)
    ensures
        r@ == spec_action_tooltip(action@, *controls, records, solo),
{
    let mut description = action.to_string();
    if records && controls.apply_n_cycles > 0 {
        let cycles = controls.apply_n_cycles;
        description.append(" for ");
        let number = u32_text(cycles);
        description.append(number.as_str());
        description.append(" ");
        if cycles == 1 {
            description.append("cycle");
        } else {
            description.append("cycles");
        }
    }
    if records && controls.play_after_record {
        description.append(" then play");
    }
    if solo && controls.solo {
        description.append(" and stop others in same track(s)");
    }
    description.append(" (");
    description.append(action_timing(controls.sync));
    description.append(")");
    proof {
        let e = Seq::<char>::empty();
        assert(action@ + e =~= action@);
        assert(spec_action_tooltip(action@, *controls, records, solo) =~= description@);
    }
    description
}

/// A click track can be generated into loops that are not composites and hold audio or MIDI.
pub fn can_generate_click_track(state: &LoopState) -> (r: bool)
    ensures
        r == (state.composite_kind == CompositeKind::NotComposite && (state.has_audio || state.has_midi)),
{
    state.composite_kind == CompositeKind::NotComposite && (state.has_audio || state.has_midi)
}

/// Only loops that are not composites can be converted to one.
pub fn can_convert_to_composite(state: &LoopState) -> (r: bool)
    ensures
        r == (state.composite_kind == CompositeKind::NotComposite),
{
    state.composite_kind == CompositeKind::NotComposite
}

/// A name that the application generated: digits in parentheses, like `(3)`.
pub open spec fn spec_generated_loop_name(name: Seq<char>) -> bool {
    &&& name.len() >= 3
    &&& name[0] == '('
    &&& name[name.len() - 1] == ')'
    &&& forall|i: int| 1 <= i < name.len() - 1 ==> '0' <= #[trigger] name[i] <= '9'
}

pub fn generated_loop_name(name: &str) -> (r: bool)
    ensures
        r == spec_generated_loop_name(name@),
{
    let chars = crate::text::text_chars(name);
    let n = chars.len();
    if n < 3 || chars[0] != '(' || chars[n - 1] != ')' {
        return false;
    }
    let mut i: usize = 1;
    while i < n - 1
        invariant
            chars@ == name@,
            n == chars@.len(),
            n >= 3,
            1 <= i <= n - 1,
            forall|k: int| 1 <= k < i ==> '0' <= #[trigger] chars@[k] <= '9',
        decreases n - i,
    {
        let c = chars[i];
        if !('0' <= c && c <= '9') {
            return false;
        }
        i = i + 1;
    }
    true
}

/// Which edge a loop widget draws.
#[derive(Clone, Copy, Debug, PartialEq, Eq, Structural)]
pub enum LoopBorder {
    Target,
    Selected,
    CompositeReference,
    Empty,
    Content,
}

/// The edge of a loop: targeting wins over selection, selection over being referenced by the
/// selected composite, and an empty loop has a muted edge.
pub fn loop_border(state: &LoopState) -> (r: LoopBorder)
    ensures
        r == if state.targeted { LoopBorder::Target }
            else if state.selected { LoopBorder::Selected }
            else if state.selected_composite_kind != CompositeKind::NotComposite { LoopBorder::CompositeReference }
            else if state.empty { LoopBorder::Empty }
            else { LoopBorder::Content },
{
    if state.targeted {
        LoopBorder::Target
    } else if state.selected {
        LoopBorder::Selected
    } else if state.selected_composite_kind != CompositeKind::NotComposite {
        LoopBorder::CompositeReference
    } else if state.empty {
        LoopBorder::Empty
    } else {
        LoopBorder::Content
    }
}

/// The symbol that a loop widget shows for the loop's state.
#[derive(Clone, Copy, Debug, PartialEq, Eq, Structural)]
pub enum LoopStateIcon {
    Empty,
    Play,
    Record,
    RegularComposite,
    ScriptComposite,
    Stop,
    Unknown,
}

/// The color of that symbol.
#[derive(Clone, Copy, Debug, PartialEq, Eq, Structural)]
pub enum LoopIconTint {
    Muted,
    Foreground,
    Playing,
    DryThroughWet,
    Record,
    DarkBackground,
}

/// The state symbol, its color, and whether the state passes the dry signal through the wet
/// one: an empty loop shows that it is empty; a stopped composite shows its kind; a playing
/// script composite is drawn in the plain foreground color.
pub fn icon_for_state(mode: LoopMode, empty: bool, regular_composite: bool, script_composite: bool) -> (r: (
    LoopStateIcon,
    LoopIconTint,
    bool,
))
    ensures
        r == (if empty {
            (LoopStateIcon::Empty, LoopIconTint::Muted, false)
        } else {
            match mode {
                LoopMode::Playing => (
                    LoopStateIcon::Play,
                    if script_composite { LoopIconTint::Foreground } else { LoopIconTint::Playing },
                    false,
                ),
                LoopMode::PlayingDryThroughWet => (LoopStateIcon::Play, LoopIconTint::DryThroughWet, true),
                LoopMode::Recording => (LoopStateIcon::Record, LoopIconTint::Record, false),
                LoopMode::RecordingDryIntoWet => (LoopStateIcon::Record, LoopIconTint::DryThroughWet, true),
                LoopMode::Stopped => if regular_composite {
                    (LoopStateIcon::RegularComposite, LoopIconTint::DarkBackground, false)
                } else if script_composite {
                    (LoopStateIcon::ScriptComposite, LoopIconTint::DarkBackground, false)
                } else {
                    (LoopStateIcon::Stop, LoopIconTint::Muted, false)
                },
                _ => (LoopStateIcon::Unknown, LoopIconTint::Muted, false),
            }
        }),
{
    if empty {
        return (LoopStateIcon::Empty, LoopIconTint::Muted, false);
    }
    match mode {
        LoopMode::Playing => (
            LoopStateIcon::Play,
            if script_composite { LoopIconTint::Foreground } else { LoopIconTint::Playing },
            false,
        ),
        LoopMode::PlayingDryThroughWet => (LoopStateIcon::Play, LoopIconTint::DryThroughWet, true),
        LoopMode::Recording => (LoopStateIcon::Record, LoopIconTint::Record, false),
        LoopMode::RecordingDryIntoWet => (LoopStateIcon::Record, LoopIconTint::DryThroughWet, true),
        LoopMode::Stopped => {
            if regular_composite {
                (LoopStateIcon::RegularComposite, LoopIconTint::DarkBackground, false)
            } else if script_composite {
                (LoopStateIcon::ScriptComposite, LoopIconTint::DarkBackground, false)
            } else {
                (LoopStateIcon::Stop, LoopIconTint::Muted, false)
            }
        },
        _ => (LoopStateIcon::Unknown, LoopIconTint::Muted, false),
    }
}

/// The fill behind a loop: recording wins, then the composite kind, then whether it holds
/// content.
#[derive(Clone, Copy, Debug, PartialEq, Eq, Structural)]
pub enum LoopBackground {
    Recording,
    RegularComposite,
    ScriptComposite,
    Content,
    Empty,
}

pub open spec fn spec_loop_background(state: LoopState) -> LoopBackground {
    if state.mode == LoopMode::Recording || state.mode == LoopMode::RecordingDryIntoWet {
        LoopBackground::Recording
    } else if state.composite_kind == CompositeKind::Regular {
        LoopBackground::RegularComposite
    } else if state.composite_kind == CompositeKind::Script {
        LoopBackground::ScriptComposite
    } else if !state.empty {
        LoopBackground::Content
    } else {
        LoopBackground::Empty
    }
}

/// The fill behind a loop: see `spec_loop_background`.
pub fn loop_background(state: &LoopState) -> (r: LoopBackground)
    ensures
        r == spec_loop_background(*state),
{
    if state.mode == LoopMode::Recording || state.mode == LoopMode::RecordingDryIntoWet {
        LoopBackground::Recording
    } else if state.composite_kind == CompositeKind::Regular {
        LoopBackground::RegularComposite
    } else if state.composite_kind == CompositeKind::Script {
        LoopBackground::ScriptComposite
    } else if !state.empty {
        LoopBackground::Content
    } else {
        LoopBackground::Empty
    }
}

/// The color class of the progress bar.
#[derive(Clone, Copy, Debug, PartialEq, Eq, Structural)]
pub enum LoopProgress {
    Playing,
    PlayingDry,
    Recording,
    RecordingDry,
    Other,
}

/// The progress bar's class for each mode.
pub fn loop_progress(mode: LoopMode) -> (r: LoopProgress)
    ensures
        r == match mode {
            LoopMode::Playing => LoopProgress::Playing,
            LoopMode::PlayingDryThroughWet => LoopProgress::PlayingDry,
            LoopMode::Recording => LoopProgress::Recording,
            LoopMode::RecordingDryIntoWet => LoopProgress::RecordingDry,
            _ => LoopProgress::Other,
        },
{
    match mode {
        LoopMode::Playing => LoopProgress::Playing,
        LoopMode::PlayingDryThroughWet => LoopProgress::PlayingDry,
        LoopMode::Recording => LoopProgress::Recording,
        LoopMode::RecordingDryIntoWet => LoopProgress::RecordingDry,
        _ => LoopProgress::Other,
    }
}

/// What stands in place of the state symbol while a mode change waits.
#[derive(Clone, Copy, Debug, PartialEq, Eq, Structural)]
pub enum TransitionMark {
    /// The cycles left until the change, counting the current one.
    Countdown(i64),
    /// The change happens at the end of the current cycle.
    Hourglass,
}

/// A pending change to another mode is shown when a delay is set: a countdown of the delay
/// plus one while the delay is positive, else an hourglass, beside the next mode's symbol.
pub open spec fn spec_transition_mark(state: LoopState) -> Option<(TransitionMark, LoopMode)> {
    match state.next_transition_delay {
        Some(delay) => if state.mode != state.next_mode {
            Some((if delay > 0 { TransitionMark::Countdown((delay + 1) as i64) } else { TransitionMark::Hourglass }, state.next_mode))
        } else {
            None
        },
        None => None,
    }
}

/// The pending change of mode that the widget shows: see `spec_transition_mark`.
pub fn transition_mark(state: &LoopState) -> (r: Option<(TransitionMark, LoopMode)>)
    ensures
        r == spec_transition_mark(*state),
{
    match state.next_transition_delay {
        Some(delay) => if state.mode != state.next_mode {
            let mark = if delay > 0 { TransitionMark::Countdown(delay as i64 + 1) } else { TransitionMark::Hourglass };
            Some((mark, state.next_mode))
        } else {
            None
        },
        None => None,
    }
}

/// Which controls a loop shows.
#[derive(Clone, Copy, Debug, PartialEq, Eq, Structural)]
pub struct LoopControls {
    /// The pointer counts as over the loop.
    pub hovered: bool,
    /// The play, record and stop buttons show instead of the name.
    pub visible: bool,
    /// The play-dry popup shows.
    pub play_popup: bool,
    /// The grab and re-record popup shows.
    pub record_popup: bool,
    /// The record button shows; script composites have none.
    pub record_button: bool,
    /// Stop takes the record button's place.
    pub stop_in_record_slot: bool,
}

/// The controls of a loop. Touch mode shows them always and turns hovering off; hovering
/// needs the widget to allow it (and the loop to be in view); the popups, which keep showing
/// while their button was hovered a moment ago (`play_popup_live`, `record_popup_live`), are
/// only for loops that are not script composites.
pub open spec fn spec_loop_controls(
    state: LoopState,
    touch_mode: bool,
    hover_allowed: bool,
    pointer_over: bool,
    play_popup_live: bool,
    record_popup_live: bool,
) -> LoopControls {
    let allowed = hover_allowed && !touch_mode;
    let non_script = state.composite_kind != CompositeKind::Script;
    let hovered = allowed && pointer_over;
    let play_popup = allowed && non_script && play_popup_live;
    let record_popup = allowed && non_script && record_popup_live;
    LoopControls {
        hovered,
        visible: touch_mode || hovered || play_popup || record_popup,
        play_popup,
        record_popup,
        record_button: non_script,
        stop_in_record_slot: !non_script,
    }
}

/// The controls of a loop: see `spec_loop_controls`.
pub fn loop_controls(
    state: &LoopState,
    touch_mode: bool,
    hover_allowed: bool,
    pointer_over: bool,
    play_popup_live: bool,
    record_popup_live: bool,
) -> (r: LoopControls)
    ensures
        r == spec_loop_controls(*state, touch_mode, hover_allowed, pointer_over, play_popup_live, record_popup_live),
        r.record_button == (state.composite_kind != CompositeKind::Script),
        r.visible == (touch_mode || r.hovered || r.play_popup || r.record_popup),
{
    let allowed = hover_allowed && !touch_mode;
    let non_script = state.composite_kind != CompositeKind::Script;
    let hovered = allowed && pointer_over;
    let play_popup = allowed && non_script && play_popup_live;
    let record_popup = allowed && non_script && record_popup_live;
    LoopControls {
        hovered,
        visible: touch_mode || hovered || play_popup || record_popup,
        play_popup,
        record_popup,
        record_button: non_script,
        stop_in_record_slot: !non_script,
    }
}

/// How a loop's audio is saved.
#[derive(Clone, Copy, Debug, PartialEq, Eq, Structural)]
pub enum LoopAudioExportFormat {
    Exact,
    FloatWav,
    RawExact,
    RawFloatWav,
}

/// How a loop's MIDI is saved.
#[derive(Clone, Copy, Debug, PartialEq, Eq, Structural)]
pub enum LoopMidiExportFormat {
    Exact,
    Standard,
    RawStandard,
}

/// Whether a click on a loop adds to the selection.
#[derive(Clone, Copy, Debug, PartialEq, Eq, Structural)]
pub struct SelectionModifiers {
    pub additive: bool,
}

/// What a loop widget asks of the loop.
#[derive(Clone, Debug, PartialEq, Eq)]
pub enum LoopWidgetAction {
    IconClicked(SelectionModifiers),
    IconDoubleClicked,
    PlayClicked,
    PlayDryClicked,
    RecordClicked,
    GrabClicked,
    RerecordClicked,
    StopClicked,
    NameChanged(String),
    Duplicate,
    ConvertToComposite,
    RestoreRecordedFxState,
}

/// What one event of a loop widget gives.
#[derive(Clone, Debug, PartialEq, Eq)]
pub struct LoopWidgetResponse {
    pub actions: Vec<LoopWidgetAction>,
    pub io_intents: Vec<AppIntent>,
    pub click_track_requested: bool,
}

/// A click on a loop widget's controls, its context menu or its raw-export question.
#[derive(Clone, Debug, PartialEq, Eq)]
pub enum LoopControlEvent {
    /// The widget is drawn with no click.
    Frame,
    IconClicked { additive: bool },
    IconDoubleClicked,
    Play,
    Record,
    Stop,
    PlayDry,
    Grab,
    Rerecord,
    /// The name field was committed with this text.
    NameCommitted(String),
    Clone,
    ConvertToComposite,
    GenerateClickTrack,
    SaveAudio(LoopAudioExportFormat),
    LoadAudio,
    RestoreRecordedFxState,
    SaveMidi(LoopMidiExportFormat),
    LoadMidi,
    ConfirmRawExport,
    CancelRawExport,
}

/// An export request for the loop `id`.
pub open spec fn exports_loop(intent: AppIntent, id: LoopId) -> bool {
    match intent {
        AppIntent::RequestLoopAudioExport { loop_id, .. } => loop_id == id,
        AppIntent::RequestLoopMidiExport { loop_id, .. } => loop_id == id,
        _ => false,
    }
}

/// A raw export waits for confirmation only while it is for the loop the widget shows.
pub open spec fn gated_raw_export(pending: Option<AppIntent>, id: LoopId) -> Option<AppIntent> {
    match pending {
        Some(intent) => if exports_loop(intent, id) { Some(intent) } else { None },
        None => None,
    }
}

/// What one event does: the actions and requests it gives, whether it asks for the click
/// track dialog, and the raw export that then waits for confirmation.
///
/// The controls act on the loop, except that record, play-dry, grab and re-record are only
/// for loops that are not script composites. The menu renames the loop when the committed
/// name differs, clones only unsynced loops, converts and generates click tracks only where
/// possible, offers audio and MIDI saving and loading only for loops with audio or MIDI, and
/// restores recorded effect state only where there is some. Raw exports (which include the
/// retained margins) wait for confirmation instead of being sent; confirming sends the
/// waiting export, cancelling drops it, and a waiting export of another loop is dropped.
pub open spec fn spec_loop_widget_step(pending: Option<AppIntent>, state: LoopState, event: LoopControlEvent) -> (
    Seq<LoopWidgetAction>,
    Seq<AppIntent>,
    bool,
    Option<AppIntent>,
) {
    let waiting = gated_raw_export(pending, state.id);
    let non_script = state.composite_kind != CompositeKind::Script;
    let none = Seq::<LoopWidgetAction>::empty();
    let no_io = Seq::<AppIntent>::empty();
    let act = |a: LoopWidgetAction| (seq![a], no_io, false, waiting);
    let act_if = |c: bool, a: LoopWidgetAction| if c { (seq![a], no_io, false, waiting) } else { (none, no_io, false, waiting) };
    match event {
        LoopControlEvent::Frame => (none, no_io, false, waiting),
        LoopControlEvent::IconClicked { additive } => act(LoopWidgetAction::IconClicked(SelectionModifiers { additive })),
        LoopControlEvent::IconDoubleClicked => act(LoopWidgetAction::IconDoubleClicked),
        LoopControlEvent::Play => act(LoopWidgetAction::PlayClicked),
        LoopControlEvent::Record => act_if(non_script, LoopWidgetAction::RecordClicked),
        LoopControlEvent::Stop => act(LoopWidgetAction::StopClicked),
        LoopControlEvent::PlayDry => act_if(non_script, LoopWidgetAction::PlayDryClicked),
        LoopControlEvent::Grab => act_if(non_script, LoopWidgetAction::GrabClicked),
        LoopControlEvent::Rerecord => act_if(non_script, LoopWidgetAction::RerecordClicked),
        LoopControlEvent::NameCommitted(name) => act_if(name@ != state.name@, LoopWidgetAction::NameChanged(name)),
        LoopControlEvent::Clone => act_if(!state.sync, LoopWidgetAction::Duplicate),
        LoopControlEvent::ConvertToComposite => act_if(
            state.composite_kind == CompositeKind::NotComposite,
            LoopWidgetAction::ConvertToComposite,
        ),
        LoopControlEvent::GenerateClickTrack => (
            none,
            no_io,
            state.composite_kind == CompositeKind::NotComposite && (state.has_audio || state.has_midi),
            waiting,
        ),
        LoopControlEvent::SaveAudio(format) => {
            let request = AppIntent::RequestLoopAudioExport { loop_id: state.id, format };
            if !state.has_audio {
                (none, no_io, false, waiting)
            } else if format == LoopAudioExportFormat::RawExact || format == LoopAudioExportFormat::RawFloatWav {
                (none, no_io, false, Some(request))
            } else {
                (none, seq![request], false, waiting)
            }
        },
        LoopControlEvent::LoadAudio => if state.has_audio {
            (none, seq![AppIntent::RequestLoopAudioImportPicker { loop_id: state.id }], false, waiting)
        } else {
            (none, no_io, false, waiting)
        },
        LoopControlEvent::RestoreRecordedFxState => act_if(state.has_recorded_fx_state, LoopWidgetAction::RestoreRecordedFxState),
        LoopControlEvent::SaveMidi(format) => {
            let request = AppIntent::RequestLoopMidiExport { loop_id: state.id, format };
            if !state.has_midi {
                (none, no_io, false, waiting)
            } else if format == LoopMidiExportFormat::RawStandard {
                (none, no_io, false, Some(request))
            } else {
                (none, seq![request], false, waiting)
            }
        },
        LoopControlEvent::LoadMidi => if state.has_midi {
            (none, seq![AppIntent::RequestLoopMidiImportPicker { loop_id: state.id }], false, waiting)
        } else {
            (none, no_io, false, waiting)
        },
        LoopControlEvent::ConfirmRawExport => match waiting {
            Some(intent) => (none, seq![intent], false, None),
            None => (none, no_io, false, None),
        },
        LoopControlEvent::CancelRawExport => (none, no_io, false, None),
    }
}

/// Saving a loop's media in a raw format (which includes the retained margins) sends nothing
/// and leaves exactly that export waiting for confirmation; saving it in any other format
/// sends the export at once and leaves the waiting export as it was (dropped only when it
/// belongs to another loop). A loop without that media saves nothing.
pub proof fn lemma_raw_exports_wait(pending: Option<AppIntent>, state: LoopState, audio: LoopAudioExportFormat, midi: LoopMidiExportFormat)
    ensures
        ({
            let r = spec_loop_widget_step(pending, state, LoopControlEvent::SaveAudio(audio));
            let request = AppIntent::RequestLoopAudioExport { loop_id: state.id, format: audio };
            &&& r.0.len() == 0
            &&& !r.2
            &&& (state.has_audio && (audio == LoopAudioExportFormat::RawExact || audio == LoopAudioExportFormat::RawFloatWav))
                ==> r.1.len() == 0 && r.3 == Some(request)
            &&& (state.has_audio && (audio == LoopAudioExportFormat::Exact || audio == LoopAudioExportFormat::FloatWav))
                ==> r.1 == seq![request] && r.3 == gated_raw_export(pending, state.id)
            &&& !state.has_audio ==> r.1.len() == 0 && r.3 == gated_raw_export(pending, state.id)
        }),
        ({
            let r = spec_loop_widget_step(pending, state, LoopControlEvent::SaveMidi(midi));
            let request = AppIntent::RequestLoopMidiExport { loop_id: state.id, format: midi };
            &&& r.0.len() == 0
            &&& !r.2
            &&& (state.has_midi && midi == LoopMidiExportFormat::RawStandard) ==> r.1.len() == 0 && r.3 == Some(request)
            &&& (state.has_midi && (midi == LoopMidiExportFormat::Exact || midi == LoopMidiExportFormat::Standard))
                ==> r.1 == seq![request] && r.3 == gated_raw_export(pending, state.id)
            &&& !state.has_midi ==> r.1.len() == 0 && r.3 == gated_raw_export(pending, state.id)
        }),
        ({
            let waiting = spec_loop_widget_step(pending, state, LoopControlEvent::SaveAudio(audio)).3;
            let confirmed = spec_loop_widget_step(waiting, state, LoopControlEvent::ConfirmRawExport);
            (state.has_audio && (audio == LoopAudioExportFormat::RawExact || audio == LoopAudioExportFormat::RawFloatWav))
                ==> confirmed.1 == seq![AppIntent::RequestLoopAudioExport { loop_id: state.id, format: audio }] && confirmed.3 is None
        }),
{
}

/// The part of a loop widget that outlives a frame: the raw export waiting for confirmation.
#[derive(Debug)]
pub struct LoopWidget {
    pending_raw_export: Option<AppIntent>,
}

fn belongs_to_loop(intent: &AppIntent, id: LoopId) -> (r: bool)
    ensures
        r == exports_loop(*intent, id),
{
    match intent {
        AppIntent::RequestLoopAudioExport { loop_id, .. } => *loop_id == id,
        AppIntent::RequestLoopMidiExport { loop_id, .. } => *loop_id == id,
        _ => false,
    }
}

fn one_action(a: LoopWidgetAction) -> (r: LoopWidgetResponse)
    ensures
        r.actions@ == seq![a],
        r.io_intents@.len() == 0,
        !r.click_track_requested,
{
    let mut actions = Vec::new();
    actions.push(a);
    proof {
        assert(actions@ =~= seq![a]);
    }
    LoopWidgetResponse { actions, io_intents: Vec::new(), click_track_requested: false }
}

fn nothing() -> (r: LoopWidgetResponse)
    ensures
        r.actions@.len() == 0,
        r.io_intents@.len() == 0,
        !r.click_track_requested,
{
    LoopWidgetResponse { actions: Vec::new(), io_intents: Vec::new(), click_track_requested: false }
}

fn one_request(intent: AppIntent) -> (r: LoopWidgetResponse)
    ensures
        r.actions@.len() == 0,
        r.io_intents@ == seq![intent],
        !r.click_track_requested,
{
    let mut io_intents = Vec::new();
    io_intents.push(intent);
    proof {
        assert(io_intents@ =~= seq![intent]);
    }
    LoopWidgetResponse { actions: Vec::new(), io_intents, click_track_requested: false }
}

impl LoopWidget {
    /// A widget with no export waiting.
    pub fn new() -> (r: Self)
        ensures
            r.pending_raw_export() is None,
    {
        LoopWidget { pending_raw_export: None }
    }

    /// The raw export waiting for confirmation.
    pub closed spec fn pending_raw_export(self) -> Option<AppIntent> {
        self.pending_raw_export
    }

    /// Whether a raw export waits for confirmation, so that the question is shown.
    pub fn raw_export_waiting(&self) -> (r: bool)
        ensures
            r == self.pending_raw_export() is Some,
    {
        self.pending_raw_export.is_some()
    }

    /// One event of the widget showing `state`: see `spec_loop_widget_step`.
    pub fn step(&mut self, state: &LoopState, event: LoopControlEvent) -> (r: LoopWidgetResponse)
        ensures
            (r.actions@, r.io_intents@, r.click_track_requested, final(self).pending_raw_export())
                == spec_loop_widget_step(old(self).pending_raw_export(), *state, event),
    {
        let stale = match &self.pending_raw_export {
            Some(intent) => !belongs_to_loop(intent, state.id),
            None => false,
        };
        if stale {
            self.pending_raw_export = None;
        }
        let non_script = state.composite_kind != CompositeKind::Script;
        match event {
            LoopControlEvent::Frame => nothing(),
            LoopControlEvent::IconClicked { additive } => one_action(LoopWidgetAction::IconClicked(SelectionModifiers { additive })),
            LoopControlEvent::IconDoubleClicked => one_action(LoopWidgetAction::IconDoubleClicked),
            LoopControlEvent::Play => one_action(LoopWidgetAction::PlayClicked),
            LoopControlEvent::Record => if non_script { one_action(LoopWidgetAction::RecordClicked) } else { nothing() },
            LoopControlEvent::Stop => one_action(LoopWidgetAction::StopClicked),
            LoopControlEvent::PlayDry => if non_script { one_action(LoopWidgetAction::PlayDryClicked) } else { nothing() },
            LoopControlEvent::Grab => if non_script { one_action(LoopWidgetAction::GrabClicked) } else { nothing() },
            LoopControlEvent::Rerecord => if non_script { one_action(LoopWidgetAction::RerecordClicked) } else { nothing() },
            LoopControlEvent::NameCommitted(name) => if !crate::text::str_equal(name.as_str(), state.name.as_str()) {
                one_action(LoopWidgetAction::NameChanged(name))
            } else {
                nothing()
            },
            LoopControlEvent::Clone => if !state.sync { one_action(LoopWidgetAction::Duplicate) } else { nothing() },
            LoopControlEvent::ConvertToComposite => if can_convert_to_composite(state) {
                one_action(LoopWidgetAction::ConvertToComposite)
            } else {
                nothing()
            },
            LoopControlEvent::GenerateClickTrack => LoopWidgetResponse {
                actions: Vec::new(),
                io_intents: Vec::new(),
                click_track_requested: can_generate_click_track(state),
            },
            LoopControlEvent::SaveAudio(format) => {
                let request = AppIntent::RequestLoopAudioExport { loop_id: state.id, format };
                if !state.has_audio {
                    nothing()
                } else if format == LoopAudioExportFormat::RawExact || format == LoopAudioExportFormat::RawFloatWav {
                    self.pending_raw_export = Some(request);
                    nothing()
                } else {
                    one_request(request)
                }
            },
            LoopControlEvent::LoadAudio => if state.has_audio {
                one_request(AppIntent::RequestLoopAudioImportPicker { loop_id: state.id })
            } else {
                nothing()
            },
            LoopControlEvent::RestoreRecordedFxState => if state.has_recorded_fx_state {
                one_action(LoopWidgetAction::RestoreRecordedFxState)
            } else {
                nothing()
            },
            LoopControlEvent::SaveMidi(format) => {
                let request = AppIntent::RequestLoopMidiExport { loop_id: state.id, format };
                if !state.has_midi {
                    nothing()
                } else if format == LoopMidiExportFormat::RawStandard {
                    self.pending_raw_export = Some(request);
                    nothing()
                } else {
                    one_request(request)
                }
            },
            LoopControlEvent::LoadMidi => if state.has_midi {
                one_request(AppIntent::RequestLoopMidiImportPicker { loop_id: state.id })
            } else {
                nothing()
            },
            LoopControlEvent::ConfirmRawExport => {
                let mut waiting = None;
                std::mem::swap(&mut waiting, &mut self.pending_raw_export);
                match waiting {
                    Some(intent) => one_request(intent),
                    None => nothing(),
                }
            },
            LoopControlEvent::CancelRawExport => {
                self.pending_raw_export = None;
                nothing()
            },
        }
    }
}

} // verus!
