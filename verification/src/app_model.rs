//! Global controls: their state, the actions they emit and the requests they hold.

use vstd::prelude::*;

verus! {

/// What the record button does by default.
#[derive(Clone, Copy, Debug, Default, PartialEq, Eq, Structural)]
pub enum DefaultRecordingAction {
    #[default]
    Record,
    Grab,
}

/// The global behaviour that loop actions follow.
#[derive(Clone, Copy, Debug, PartialEq, Eq, Structural)]
pub struct GlobalControlState {
    pub default_recording_action: DefaultRecordingAction,
    pub play_after_record: bool,
    pub sync: bool,
    pub solo: bool,
    pub apply_n_cycles: u32,
}

impl GlobalControlState {
    /// Record by default, play after recording, synced, no solo, no cycle limit.
    pub fn new() -> (r: Self)
        ensures
            r == (GlobalControlState {
                default_recording_action: DefaultRecordingAction::Record,
                play_after_record: true,
                sync: true,
                solo: false,
                apply_n_cycles: 0,
            }),
    {
        GlobalControlState {
            default_recording_action: DefaultRecordingAction::Record,
            play_after_record: true,
            sync: true,
            solo: false,
            apply_n_cycles: 0,
        }
    }
}

impl Default for GlobalControlState {
    fn default() -> (r: Self)
        ensures
            r == (GlobalControlState {
                default_recording_action: DefaultRecordingAction::Record,
                play_after_record: true,
                sync: true,
                solo: false,
                apply_n_cycles: 0,
            }),
    {
        GlobalControlState::new()
    }
}

/// An action of the global controls.
#[derive(Clone, Copy, Debug, PartialEq, Eq, Structural)]
pub enum GlobalControlAction {
    StopAll,
    DeselectAll,
    ClearRecordings { include_sync: bool },
    ClearAll { include_sync: bool },
    SetDefaultRecordingAction(DefaultRecordingAction),
    SetPlayAfterRecord(bool),
    SetSync(bool),
    SetSolo(bool),
    SetApplyNCycles(u32),
}

/// Requests that the global controls' menu raised and that the application has not taken yet.
#[derive(Debug, Default)]
pub struct GlobalControls {
    connections_requested: bool,
    save_session_requested: bool,
    load_session_requested: bool,
    settings_requested: bool,
}

/// Which request of the main menu.
#[derive(Clone, Copy, Debug, PartialEq, Eq, Structural)]
pub enum MenuRequest {
    Connections,
    SaveSession,
    LoadSession,
    Settings,
}

impl GlobalControls {
    /// No request raised.
    pub fn new() -> (r: Self)
        ensures
            !r.requested(MenuRequest::Connections),
            !r.requested(MenuRequest::SaveSession),
            !r.requested(MenuRequest::LoadSession),
            !r.requested(MenuRequest::Settings),
    {
        GlobalControls {
            connections_requested: false,
            save_session_requested: false,
            load_session_requested: false,
            settings_requested: false,
        }
    }

    /// Whether a request is raised.
    pub closed spec fn requested(self, request: MenuRequest) -> bool {
        match request {
            MenuRequest::Connections => self.connections_requested,
            MenuRequest::SaveSession => self.save_session_requested,
            MenuRequest::LoadSession => self.load_session_requested,
            MenuRequest::Settings => self.settings_requested,
        }
    }

    /// The main menu raised a request.
    pub fn request(&mut self, request: MenuRequest)
        ensures
            final(self).requested(request),
            forall|other: MenuRequest| other != request ==> final(self).requested(other) == old(self).requested(other),
    {
        match request {
            MenuRequest::Connections => self.connections_requested = true,
            MenuRequest::SaveSession => self.save_session_requested = true,
            MenuRequest::LoadSession => self.load_session_requested = true,
            MenuRequest::Settings => self.settings_requested = true,
        }
    }

    /// Whether the connections dialog was asked for; taking the request clears it.
    pub fn take_connections_requested(&mut self) -> (r: bool)
        ensures
            r == old(self).requested(MenuRequest::Connections),
            !final(self).requested(MenuRequest::Connections),
            forall|other: MenuRequest| other != MenuRequest::Connections ==> final(self).requested(other) == old(self).requested(other),
    {
        let r = self.connections_requested;
        self.connections_requested = false;
        r
    }

    /// Whether saving the session was asked for; taking the request clears it.
    pub fn take_save_session_requested(&mut self) -> (r: bool)
        ensures
            r == old(self).requested(MenuRequest::SaveSession),
            !final(self).requested(MenuRequest::SaveSession),
            forall|other: MenuRequest| other != MenuRequest::SaveSession ==> final(self).requested(other) == old(self).requested(other),
    {
        let r = self.save_session_requested;
        self.save_session_requested = false;
        r
    }

    /// Whether loading a session was asked for; taking the request clears it.
    pub fn take_load_session_requested(&mut self) -> (r: bool)
        ensures
            r == old(self).requested(MenuRequest::LoadSession),
            !final(self).requested(MenuRequest::LoadSession),
            forall|other: MenuRequest| other != MenuRequest::LoadSession ==> final(self).requested(other) == old(self).requested(other),
    {
        let r = self.load_session_requested;
        self.load_session_requested = false;
        r
    }

    /// Whether the settings were asked for; taking the request clears it.
    pub fn take_settings_requested(&mut self) -> (r: bool)
        ensures
            r == old(self).requested(MenuRequest::Settings),
            !final(self).requested(MenuRequest::Settings),
            forall|other: MenuRequest| other != MenuRequest::Settings ==> final(self).requested(other) == old(self).requested(other),
    {
        let r = self.settings_requested;
        self.settings_requested = false;
        r
    }
}

/// A loop widget's action, with the loop's place in the track grid.
#[derive(Clone, Debug, PartialEq, Eq)]
pub struct IndexedLoopAction {
    pub track_index: usize,
    pub loop_index: usize,
    pub action: crate::loop_widget::LoopWidgetAction,
}

} // verus!
