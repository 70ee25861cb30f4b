//! Built-in effect choices and the effect slot of a bus.
use vstd::prelude::*;

use crate::settings::TrackProcessorTypeId;

verus! {

/// The character of the drive stage.
#[derive(Clone, Copy, Debug, PartialEq, Eq, Structural)]
pub enum BuiltInFxDriveType {
    Saturation,
    Overdrive,
    Distortion,
    Fuzz,
}

/// The character of the modulation stage.
#[derive(Clone, Copy, Debug, PartialEq, Eq, Structural)]
pub enum BuiltInFxModulationType {
    Tremolo,
    Flanger,
    Phaser,
}

/// The character of the reverb stage.
#[derive(Clone, Copy, Debug, PartialEq, Eq, Structural)]
pub enum BuiltInFxReverbType {
    Room,
    Hall,
    Plate,
}

/// A change of the built-in effect's stage types.
#[derive(Clone, Copy, Debug, PartialEq, Eq, Structural)]
pub enum BuiltInFxControl {
    SetDriveType(BuiltInFxDriveType),
    SetModulationType(BuiltInFxModulationType),
    SetReverbType(BuiltInFxReverbType),
}

/// The control that selecting a drive type sends: none when it is already the current one.
pub fn drive_type_control(current: BuiltInFxDriveType, selected: BuiltInFxDriveType) -> (r: Option<
    BuiltInFxControl,
>)
    ensures
        r == (if current == selected {
            None
        } else {
            Some(BuiltInFxControl::SetDriveType(selected))
        }),
{
    if current != selected {
        Some(BuiltInFxControl::SetDriveType(selected))
    } else {
        None
    }
}

/// The control that selecting a modulation type sends: none when it is already the current one.
pub fn modulation_type_control(
    current: BuiltInFxModulationType,
    selected: BuiltInFxModulationType,
) -> (r: Option<BuiltInFxControl>)
    ensures
        r == (if current == selected {
            None
        } else {
            Some(BuiltInFxControl::SetModulationType(selected))
        }),
{
    if current != selected {
        Some(BuiltInFxControl::SetModulationType(selected))
    } else {
        None
    }
}

/// The control that selecting a reverb type sends: none when it is already the current one.
pub fn reverb_type_control(current: BuiltInFxReverbType, selected: BuiltInFxReverbType) -> (r:
    Option<BuiltInFxControl>)
    ensures
        r == (if current == selected {
            None
        } else {
            Some(BuiltInFxControl::SetReverbType(selected))
        }),
{
    if current != selected {
        Some(BuiltInFxControl::SetReverbType(selected))
    } else {
        None
    }
}

pub open spec fn drive_type_text(value: BuiltInFxDriveType) -> Seq<char> {
    match value {
        BuiltInFxDriveType::Saturation => "Saturation"@,
        BuiltInFxDriveType::Overdrive => "Overdrive"@,
        BuiltInFxDriveType::Distortion => "Distortion"@,
        BuiltInFxDriveType::Fuzz => "Fuzz"@,
    }
}

pub open spec fn modulation_type_text(value: BuiltInFxModulationType) -> Seq<char> {
    match value {
        BuiltInFxModulationType::Tremolo => "Tremolo"@,
        BuiltInFxModulationType::Flanger => "Flanger"@,
        BuiltInFxModulationType::Phaser => "Phaser"@,
    }
}

pub open spec fn reverb_type_text(value: BuiltInFxReverbType) -> Seq<char> {
    match value {
        BuiltInFxReverbType::Room => "Room"@,
        BuiltInFxReverbType::Hall => "Hall"@,
        BuiltInFxReverbType::Plate => "Plate"@,
    }
}

/// The name of a drive type as the editor shows it.
pub fn drive_type_label(value: BuiltInFxDriveType) -> (r: &'static str)
    ensures
        r@ == drive_type_text(value),
{
    match value {
        BuiltInFxDriveType::Saturation => "Saturation",
        BuiltInFxDriveType::Overdrive => "Overdrive",
        BuiltInFxDriveType::Distortion => "Distortion",
        BuiltInFxDriveType::Fuzz => "Fuzz",
    }
}

/// The name of a modulation type as the editor shows it.
pub fn modulation_type_label(value: BuiltInFxModulationType) -> (r: &'static str)
    ensures
        r@ == modulation_type_text(value),
{
    match value {
        BuiltInFxModulationType::Tremolo => "Tremolo",
        BuiltInFxModulationType::Flanger => "Flanger",
        BuiltInFxModulationType::Phaser => "Phaser",
    }
}

/// The name of a reverb type as the editor shows it.
pub fn reverb_type_label(value: BuiltInFxReverbType) -> (r: &'static str)
    ensures
        r@ == reverb_type_text(value),
{
    match value {
        BuiltInFxReverbType::Room => "Room",
        BuiltInFxReverbType::Hall => "Hall",
        BuiltInFxReverbType::Plate => "Plate",
    }
}

/// Where a hosted effect process is in its life.
#[derive(Clone, Copy, Debug, PartialEq, Eq, Structural)]
pub enum FxLifecycle {
    Starting,
    Running,
    Degraded,
    Restarting,
    Crashed,
    Unavailable,
    Stopped,
}

/// The variant name of a lifecycle state.
pub open spec fn lifecycle_text(value: FxLifecycle) -> Seq<char> {
    match value {
        FxLifecycle::Starting => "Starting"@,
        FxLifecycle::Running => "Running"@,
        FxLifecycle::Degraded => "Degraded"@,
        FxLifecycle::Restarting => "Restarting"@,
        FxLifecycle::Crashed => "Crashed"@,
        FxLifecycle::Unavailable => "Unavailable"@,
        FxLifecycle::Stopped => "Stopped"@,
    }
}

impl FxLifecycle {
    /// The variant name, as `{:?}` writes it.
    pub fn name(self) -> (r: &'static str)
        ensures
            r@ == lifecycle_text(self),
    {
        match self {
            FxLifecycle::Starting => "Starting",
            FxLifecycle::Running => "Running",
            FxLifecycle::Degraded => "Degraded",
            FxLifecycle::Restarting => "Restarting",
            FxLifecycle::Crashed => "Crashed",
            FxLifecycle::Unavailable => "Unavailable",
            FxLifecycle::Stopped => "Stopped",
        }
    }
}

/// What the bus shows of the effect in its slot.
#[derive(Clone, Debug)]
pub struct TrackFxState {
    pub processor_type: TrackProcessorTypeId,
    pub lifecycle: FxLifecycle,
    pub active: bool,
    pub visible: bool,
    pub status_summary: Option<String>,
    pub crash_summary: Option<String>,
}

/// What a click on the effect slot of a bus asks for.
#[derive(Clone, Copy, Debug, PartialEq, Eq, Structural)]
pub enum BusAction {
    FxToggleOrRecover,
    FxVisibilityChanged(bool),
}

/// The summary shown after the lifecycle: the status summary, else the crash summary.
pub open spec fn fx_summary_suffix(fx: TrackFxState) -> Seq<char> {
    match fx.status_summary {
        Some(s) => " — "@ + s@,
        None => match fx.crash_summary {
            Some(s) => " — "@ + s@,
            None => Seq::empty(),
        },
    }
}

pub open spec fn fx_hover_text(fx: TrackFxState) -> Seq<char> {
    fx.processor_type.0@ + ": "@ + lifecycle_text(fx.lifecycle) + fx_summary_suffix(fx)
}

/// The hover text of the effect slot: type, lifecycle and the first summary there is.
pub fn bus_fx_hover_text(fx: &TrackFxState) -> (r: String)
    ensures
        r@ == fx_hover_text(*fx),
{
    let mut text = fx.processor_type.0.clone();
    text.append(": ");
    text.append(fx.lifecycle.name());
    match &fx.status_summary {
        Some(summary) => {
            text.append(" — ");
            text.append(summary.as_str());
        },
        None => match &fx.crash_summary {
            Some(summary) => {
                text.append(" — ");
                text.append(summary.as_str());
            },
            None => {},
        },
    }
    proof {
        assert(fx.processor_type.0@ + ": "@ + lifecycle_text(fx.lifecycle) + fx_summary_suffix(*fx)
            =~= text@);
    }
    text
}

/// A click on a crashed or unavailable effect recovers it; otherwise it toggles its window.
pub fn bus_fx_primary_action(fx: &TrackFxState) -> (r: BusAction)
    ensures
        r == (if fx.lifecycle == FxLifecycle::Crashed || fx.lifecycle == FxLifecycle::Unavailable {
            BusAction::FxToggleOrRecover
        } else {
            BusAction::FxVisibilityChanged(!fx.visible)
        }),
{
    match fx.lifecycle {
        FxLifecycle::Crashed | FxLifecycle::Unavailable => BusAction::FxToggleOrRecover,
        _ => BusAction::FxVisibilityChanged(!fx.visible),
    }
}

/// Which editor a processor, or the running effect, offers.
#[derive(Clone, Copy, Debug, PartialEq, Eq, Structural)]
pub enum ProcessorEditorKind {
    BuiltInFx,
    Other,
}

/// The built-in effect editor of a track is shown only when the track has an effect whose
/// window is visible, the effect offers the built-in editor, and so does the processor it
/// runs; otherwise it shows nothing and asks nothing.
pub open spec fn spec_builtin_fx_editor_shown(
    fx_visible: Option<bool>,
    fx_editor: Option<ProcessorEditorKind>,
    processor_editor: Option<ProcessorEditorKind>,
) -> bool {
    &&& fx_visible == Some(true)
    &&& fx_editor == Some(ProcessorEditorKind::BuiltInFx)
    &&& processor_editor == Some(ProcessorEditorKind::BuiltInFx)
}

/// Whether the built-in effect editor is shown: see `spec_builtin_fx_editor_shown`.
/// `fx_visible` is the visibility of the track's effect, none without one.
pub fn builtin_fx_editor_shown(
    fx_visible: Option<bool>,
    fx_editor: Option<ProcessorEditorKind>,
    processor_editor: Option<ProcessorEditorKind>,
) -> (r: bool)
    ensures
        r == spec_builtin_fx_editor_shown(fx_visible, fx_editor, processor_editor),
{
    let visible = match fx_visible {
        Some(v) => v,
        None => false,
    };
    let editor = match fx_editor {
        Some(ProcessorEditorKind::BuiltInFx) => true,
        _ => false,
    };
    let processor = match processor_editor {
        Some(ProcessorEditorKind::BuiltInFx) => true,
        _ => false,
    };
    visible && editor && processor
}

} // verus!
