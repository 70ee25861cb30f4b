//! Ports of the application and of the host, and the links between them.

use vstd::prelude::*;

use crate::ids::{HostPortId, PortId, ScriptId, TrackId};
use crate::latency::LatencyObservationState;

verus! {

/// Whether a port carries audio or MIDI.
#[derive(Clone, Copy, Debug, PartialEq, Eq, Structural, Hash)]
pub enum PortDataType {
    Audio,
    Midi,
}

/// Direction of a port, seen from its owner.
#[derive(Clone, Copy, Debug, PartialEq, Eq, Structural, Hash)]
pub enum PortDirection {
    Input,
    Output,
}

/// Who may change a port's connections.
#[derive(Clone, Copy, Debug, PartialEq, Eq, Structural, Hash)]
pub enum ConnectionPolicy {
    UserManaged,
    OwnerManaged,
}

/// Which port of a track this is.
#[derive(Clone, Copy, Debug, PartialEq, Eq, Structural, Hash)]
pub enum TrackPortOwnerKind {
    Main,
}

/// The role of a port.
#[derive(Clone, Copy, Debug, PartialEq, Eq, Structural, Hash)]
pub enum PortRole {
    AudioInput,
    AudioOutput,
    MidiInput,
    MidiOutput,
}

/// The owner of an application port: a track, or a Lua control script.
#[derive(Clone, Copy, Debug, PartialEq, Eq, Structural, Hash)]
pub enum ApplicationPortOwner {
    Track { track_id: TrackId, kind: TrackPortOwnerKind },
    LuaControl { script_id: ScriptId, registration: u64 },
}

/// A port of the application.
#[derive(Clone, Debug, PartialEq, Eq)]
pub struct ApplicationPortState {
    pub id: PortId,
    pub owner: ApplicationPortOwner,
    pub name: String,
    pub data_type: PortDataType,
    pub direction: PortDirection,
    pub role: PortRole,
    pub connection_policy: ConnectionPolicy,
    pub capture_latency: LatencyObservationState,
    pub playback_latency: LatencyObservationState,
}

/// A port of the host audio system.
#[derive(Clone, Debug, PartialEq, Eq)]
pub struct HostPortState {
    pub id: HostPortId,
    pub name: String,
    pub data_type: PortDataType,
    pub direction: PortDirection,
}

/// A link between an application port and a host port that the host has confirmed.
#[derive(Clone, Debug, PartialEq, Eq)]
pub struct ConfirmedConnectionState {
    pub application_port_id: PortId,
    pub host_port_id: HostPortId,
}

/// A link change that was asked for and is not confirmed yet.
#[derive(Clone, Debug, PartialEq, Eq)]
pub struct PendingConnectionState {
    pub application_port_id: PortId,
    pub host_port_id: HostPortId,
    pub desired_connected: bool,
}

/// Why a link change failed.
#[derive(Clone, Copy, Debug, PartialEq, Eq, Structural)]
pub enum ConnectionErrorKind {
    BackendRejected,
}

/// A failed link change.
#[derive(Clone, Debug, PartialEq, Eq)]
pub struct ConnectionErrorState {
    pub port_id: Option<PortId>,
    pub external_port: Option<String>,
    pub kind: ConnectionErrorKind,
    pub message: String,
}

/// Everything known about ports and links.
#[derive(Clone, Debug, PartialEq, Eq)]
pub struct ConnectionViewState {
    pub revision: u64,
    pub loading: bool,
    pub backend_available: bool,
    pub application_ports: Vec<ApplicationPortState>,
    pub host_ports: Vec<HostPortState>,
    pub confirmed_links: Vec<ConfirmedConnectionState>,
    pub pending_links: Vec<PendingConnectionState>,
    pub errors: Vec<ConnectionErrorState>,
}

impl ConnectionViewState {
    /// A state with no ports, links or errors.
    pub fn empty() -> (r: Self)
        ensures
            r.revision == 0,
            !r.loading,
            !r.backend_available,
            r.application_ports@.len() == 0,
            r.host_ports@.len() == 0,
            r.confirmed_links@.len() == 0,
            r.pending_links@.len() == 0,
            r.errors@.len() == 0,
    {
        ConnectionViewState {
            revision: 0,
            loading: false,
            backend_available: false,
            application_ports: Vec::new(),
            host_ports: Vec::new(),
            confirmed_links: Vec::new(),
            pending_links: Vec::new(),
            errors: Vec::new(),
        }
    }
}

/// Index of the first application port with identity `id`.
pub open spec fn first_application_port(ports: Seq<ApplicationPortState>, id: PortId) -> Option<int> {
    ports.map_values(|p: ApplicationPortState| p.id).index_of_first(id)
}

/// Index of the first host port whose identity reads `id`.
pub open spec fn first_host_port(ports: Seq<HostPortState>, id: Seq<char>) -> Option<int> {
    ports.map_values(|p: HostPortState| p.id.0@).index_of_first(id)
}

/// The first application port with identity `id`.
pub fn find_application_port(state: &ConnectionViewState, id: PortId) -> (r: Option<&ApplicationPortState>)
    ensures
        match first_application_port(state.application_ports@, id) {
            Some(i) => r == Some(&state.application_ports@[i]),
            None => r is None,
        },
{
    let ghost ids = state.application_ports@.map_values(|p: ApplicationPortState| p.id);
    proof {
        ids.index_of_first_ensures(id);
    }
    let mut i: usize = 0;
    while i < state.application_ports.len()
        invariant
            i <= state.application_ports@.len(),
            ids == state.application_ports@.map_values(|p: ApplicationPortState| p.id),
            forall|k: int| 0 <= k < i ==> ids[k] != id,
        decreases state.application_ports@.len() - i,
    {
        if state.application_ports[i].id == id {
            proof {
                assert(ids[i as int] == id);
                ids.index_of_first_ensures(id);
                match ids.index_of_first(id) {
                    Some(j) => {
                        if j < i { assert(ids[j] != id); }
                        if j > i { assert(ids.contains(id)); }
                    },
                    None => { assert(ids.contains(id)); },
                }
            }
            return Some(&state.application_ports[i]);
        }
        i = i + 1;
    }
    proof {
        ids.index_of_first_ensures(id);
        if let Some(j) = ids.index_of_first(id) {
            assert(ids[j] == id);
        }
    }
    None
}

/// The first host port whose identity is `id`.
pub fn find_host_port<'a>(state: &'a ConnectionViewState, id: &HostPortId) -> (r: Option<&'a HostPortState>)
    ensures
        match first_host_port(state.host_ports@, id.0@) {
            Some(i) => r == Some(&state.host_ports@[i]),
            None => r is None,
        },
{
    let ghost ids = state.host_ports@.map_values(|p: HostPortState| p.id.0@);
    proof {
        ids.index_of_first_ensures(id.0@);
    }
    let mut i: usize = 0;
    while i < state.host_ports.len()
        invariant
            i <= state.host_ports@.len(),
            ids == state.host_ports@.map_values(|p: HostPortState| p.id.0@),
            forall|k: int| 0 <= k < i ==> ids[k] != id.0@,
        decreases state.host_ports@.len() - i,
    {
        if state.host_ports[i].id.same_as(id) {
            proof {
                assert(ids[i as int] == id.0@);
                ids.index_of_first_ensures(id.0@);
                match ids.index_of_first(id.0@) {
                    Some(j) => {
                        if j < i { assert(ids[j] != id.0@); }
                        if j > i { assert(ids.contains(id.0@)); }
                    },
                    None => { assert(ids.contains(id.0@)); },
                }
            }
            return Some(&state.host_ports[i]);
        }
        i = i + 1;
    }
    proof {
        ids.index_of_first_ensures(id.0@);
        if let Some(j) = ids.index_of_first(id.0@) {
            assert(ids[j] == id.0@);
        }
    }
    None
}

} // verus!
