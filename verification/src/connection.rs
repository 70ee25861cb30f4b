//! The connection graph between application ports and host ports, and the connections dialog.

use vstd::prelude::*;

use crate::ids::{HostPortId, PortId, ScriptId, TrackId};
use crate::ports::{ApplicationPortOwner, ConnectionErrorState, ConnectionPolicy, ConnectionViewState, PortDataType};
use crate::text::{decimal, find_char, str_equal, u64_text, TextOrder, compare_text, text_less};

verus! {

/// Which tracks the dialog opens on.
#[derive(Clone, Copy, Debug, PartialEq, Eq, Structural, Hash)]
pub enum ConnectionScope {
    AllTracks,
    Track(TrackId),
}

/// Which tracks' ports the graph shows.
#[derive(Clone, Debug, PartialEq, Eq)]
pub enum TrackFilter {
    All,
    Selected(Vec<TrackId>),
}

/// What the graph shows.
#[derive(Clone, Debug, PartialEq, Eq)]
pub struct ConnectionFilters {
    pub audio: bool,
    pub midi: bool,
    pub tracks: TrackFilter,
}

/// The filters that the dialog applies when it opens on `scope`.
pub open spec fn scope_filters(scope: ConnectionScope) -> (bool, bool, Option<Set<TrackId>>) {
    match scope {
        ConnectionScope::AllTracks => (true, true, None),
        ConnectionScope::Track(id) => (true, true, Some(set![id])),
    }
}

/// Two filters show the same ports: the same data types and the same set of tracks.
pub open spec fn same_filters(a: ConnectionFilters, b: ConnectionFilters) -> bool {
    a.audio == b.audio && a.midi == b.midi && selected_tracks(a) == selected_tracks(b)
}

/// The set of tracks that a filter selects, `None` for all tracks.
pub open spec fn selected_tracks(filters: ConnectionFilters) -> Option<Set<TrackId>> {
    match filters.tracks {
        TrackFilter::All => None,
        TrackFilter::Selected(ids) => Some(ids@.to_set()),
    }
}

/// Track identities in strictly ascending order, as a selection lists them.
pub open spec fn tracks_ascending(s: Seq<TrackId>) -> bool {
    forall|i: int, j: int| 0 <= i < j < s.len() ==> s[i].0 < s[j].0
}

/// The filter lists its selected tracks in ascending order.
pub open spec fn filter_ascending(filters: ConnectionFilters) -> bool {
    match filters.tracks {
        TrackFilter::All => true,
        TrackFilter::Selected(ids) => tracks_ascending(ids@),
    }
}

/// The track selection after choosing `track` in the track menu: choosing a track when all
/// are shown selects only it; a selected track is deselected, and deselecting the last one
/// shows all tracks again; any other track joins the selection.
pub open spec fn toggled_selection(selection: Option<Set<TrackId>>, track: TrackId) -> Option<Set<TrackId>> {
    match selection {
        None => Some(set![track]),
        Some(s) => if s.contains(track) {
            if s.remove(track) == Set::<TrackId>::empty() {
                None
            } else {
                Some(s.remove(track))
            }
        } else {
            Some(s.insert(track))
        },
    }
}

/// The filter keeps ports of this data type.
pub open spec fn spec_includes_type(filters: ConnectionFilters, data_type: PortDataType) -> bool {
    match data_type {
        PortDataType::Audio => filters.audio,
        PortDataType::Midi => filters.midi,
    }
}

/// The filter keeps ports of this owner: all ports when no track is selected, else only ports
/// of selected tracks; ports of Lua control scripts belong to no track.
pub open spec fn spec_includes_owner(filters: ConnectionFilters, owner: ApplicationPortOwner) -> bool {
    match (filters.tracks, owner) {
        (TrackFilter::All, _) => true,
        (TrackFilter::Selected(ids), ApplicationPortOwner::Track { track_id, .. }) => ids@.contains(track_id),
        (TrackFilter::Selected(_), ApplicationPortOwner::LuaControl { .. }) => false,
    }
}

/// Every track of `b` occurs in `a`.
pub open spec fn covers_spec(a: Seq<TrackId>, b: Seq<TrackId>) -> bool {
    forall|k: int| 0 <= k < b.len() ==> a.contains(#[trigger] b[k])
}

proof fn lemma_singleton_to_set(x: TrackId)
    ensures
        seq![x].to_set() == set![x],
{
    assert forall|t: TrackId| seq![x].to_set().contains(t) == set![x].contains(t) by {
        if t == x {
            assert(seq![x][0] == t);
        }
    }
    assert(seq![x].to_set() =~= set![x]);
}

fn contains_track(ids: &Vec<TrackId>, track: TrackId) -> (r: bool)
    ensures
        r == ids@.contains(track),
{
    let mut i: usize = 0;
    while i < ids.len()
        invariant
            i <= ids@.len(),
            forall|k: int| 0 <= k < i ==> ids@[k] != track,
        decreases ids@.len() - i,
    {
        if ids[i] == track {
            proof {
                assert(ids@[i as int] == track);
            }
            return true;
        }
        i = i + 1;
    }
    false
}

fn covers(a: &Vec<TrackId>, b: &Vec<TrackId>) -> (r: bool)
    ensures
        r == covers_spec(a@, b@),
{
    let mut i: usize = 0;
    while i < b.len()
        invariant
            i <= b@.len(),
            forall|k: int| 0 <= k < i ==> a@.contains(#[trigger] b@[k]),
        decreases b@.len() - i,
    {
        if !contains_track(a, b[i]) {
            return false;
        }
        i = i + 1;
    }
    true
}

/// `ids` without `track`, in the same order.
fn without_track(ids: &Vec<TrackId>, track: TrackId) -> (r: Vec<TrackId>)
    ensures
        r@.to_set() == ids@.to_set().remove(track),
        tracks_ascending(ids@) ==> tracks_ascending(r@),
{
    let mut rest: Vec<TrackId> = Vec::new();
    let ghost mut origin: Seq<int> = Seq::empty();
    let mut i: usize = 0;
    while i < ids.len()
        invariant
            i <= ids@.len(),
            origin.len() == rest@.len(),
            forall|k: int| 0 <= k < rest@.len() ==> 0 <= #[trigger] origin[k] < i && ids@[origin[k]] == rest@[k],
            forall|k: int, l: int| 0 <= k < l < rest@.len() ==> origin[k] < origin[l],
            forall|k: int| 0 <= k < rest@.len() ==> rest@[k] != track,
            forall|m: int| 0 <= m < i && ids@[m] != track ==> rest@.contains(#[trigger] ids@[m]),
        decreases ids@.len() - i,
    {
        if ids[i] != track {
            let ghost prev = rest@;
            proof {
                origin = origin.push(i as int);
            }
            rest.push(ids[i]);
            proof {
                assert forall|m: int| 0 <= m < i + 1 && ids@[m] != track implies rest@.contains(#[trigger] ids@[m]) by {
                    if m == i {
                        assert(rest@[rest@.len() - 1] == ids@[m]);
                    } else {
                        assert(prev.contains(ids@[m]));
                        let k = choose|k: int| 0 <= k < prev.len() && prev[k] == ids@[m];
                        assert(rest@[k] == ids@[m]);
                    }
                }
            }
        }
        i = i + 1;
    }
    proof {
        assert forall|t: TrackId| rest@.to_set().contains(t) == ids@.to_set().remove(track).contains(t) by {
            if rest@.to_set().contains(t) {
                let k = choose|k: int| 0 <= k < rest@.len() && rest@[k] == t;
                assert(ids@[origin[k]] == t);
            }
            if ids@.to_set().remove(track).contains(t) {
                let m = choose|m: int| 0 <= m < ids@.len() && ids@[m] == t;
                assert(rest@.contains(ids@[m]));
            }
        }
        assert(rest@.to_set() =~= ids@.to_set().remove(track));
        if tracks_ascending(ids@) {
            assert forall|k: int, l: int| 0 <= k < l < rest@.len() implies rest@[k].0 < rest@[l].0 by {
                assert(origin[k] < origin[l]);
                assert(ids@[origin[k]].0 < ids@[origin[l]].0);
            }
        }
    }
    rest
}

/// Adds `track` to `ids` where ascending order puts it; an ascending list stays ascending.
fn insert_ascending(ids: &mut Vec<TrackId>, track: TrackId)
    ensures
        final(ids)@.to_set() == old(ids)@.to_set().insert(track),
        tracks_ascending(old(ids)@) ==> tracks_ascending(final(ids)@),
{
    let mut p: usize = 0;
    while p < ids.len() && ids[p].0 < track.0
        invariant
            p <= ids@.len(),
            forall|k: int| 0 <= k < p ==> #[trigger] ids@[k].0 < track.0,
        decreases ids@.len() - p,
    {
        p = p + 1;
    }
    if p < ids.len() && ids[p] == track {
        proof {
            assert(ids@.to_set().contains(ids@[p as int]));
            assert(ids@.to_set().insert(track) =~= ids@.to_set());
        }
        return;
    }
    let ghost before = ids@;
    ids.insert(p, track);
    proof {
        assert(ids@ == before.insert(p as int, track));
        assert forall|t: TrackId| ids@.to_set().contains(t) == before.to_set().insert(track).contains(t) by {
            if ids@.to_set().contains(t) {
                let k = choose|k: int| 0 <= k < ids@.len() && ids@[k] == t;
                if k < p {
                    assert(before[k] == t);
                } else if k > p {
                    assert(before[k - 1] == t);
                }
            }
            if before.to_set().contains(t) {
                let k = choose|k: int| 0 <= k < before.len() && before[k] == t;
                if k < p {
                    assert(ids@[k] == t);
                } else {
                    assert(ids@[k + 1] == t);
                }
            }
            if t == track {
                assert(ids@[p as int] == t);
            }
        }
        assert(ids@.to_set() =~= before.to_set().insert(track));
        if tracks_ascending(before) {
            if p < before.len() {
                assert(before[p as int].0 >= track.0);
                assert(before[p as int] != track);
                assert(before[p as int].0 != track.0);
            }
            assert forall|k: int, l: int| 0 <= k < l < ids@.len() implies ids@[k].0 < ids@[l].0 by {
                if l < p {
                    assert(ids@[k] == before[k] && ids@[l] == before[l]);
                } else if l == p {
                    assert(ids@[k] == before[k]);
                } else if k < p {
                    assert(ids@[k] == before[k] && ids@[l] == before[l - 1]);
                    assert(before[p as int].0 <= before[l - 1].0);
                    assert(before[k].0 < track.0);
                } else if k == p {
                    assert(ids@[l] == before[l - 1]);
                    assert(before[p as int].0 <= before[l - 1].0);
                } else {
                    assert(ids@[k] == before[k - 1] && ids@[l] == before[l - 1]);
                }
            }
        }
    }
}

impl ConnectionFilters {
    /// Audio and MIDI, and all tracks or only the scoped track.
    pub fn for_scope(scope: ConnectionScope) -> (r: Self)
        ensures
            (r.audio, r.midi, selected_tracks(r)) == scope_filters(scope),
    {
        ConnectionFilters {
            audio: true,
            midi: true,
            tracks: match scope {
                ConnectionScope::AllTracks => TrackFilter::All,
                ConnectionScope::Track(track_id) => {
                    let mut ids = Vec::new();
                    ids.push(track_id);
                    proof {
                        assert(ids@ =~= seq![track_id]);
                        lemma_singleton_to_set(track_id);
                    }
                    TrackFilter::Selected(ids)
                },
            },
        }
    }

    pub fn includes_type(&self, data_type: PortDataType) -> (r: bool)
        ensures
            r == spec_includes_type(*self, data_type),
    {
        match data_type {
            PortDataType::Audio => self.audio,
            PortDataType::Midi => self.midi,
        }
    }

    #[verifier::loop_isolation(false)]
    pub fn includes_owner(&self, owner: &ApplicationPortOwner) -> (r: bool)
        ensures
            r == spec_includes_owner(*self, *owner),
    {
        match &self.tracks {
            TrackFilter::All => true,
            TrackFilter::Selected(track_ids) => match owner {
                ApplicationPortOwner::Track { track_id, .. } => {
                    let mut i: usize = 0;
                    while i < track_ids.len()
                        invariant
                            i <= track_ids@.len(),
                            forall|k: int| 0 <= k < i ==> track_ids@[k] != *track_id,
                        decreases track_ids@.len() - i,
                    {
                        if track_ids[i] == *track_id {
                            proof {
                                assert(track_ids@[i as int] == *track_id);
                                assert(track_ids@.contains(*track_id));
                            }
                            return true;
                        }
                        i = i + 1;
                    }
                    false
                },
                ApplicationPortOwner::LuaControl { .. } => false,
            },
        }
    }

    /// Whether two filters show the same ports.
    pub fn same_as(&self, other: &ConnectionFilters) -> (r: bool)
        ensures
            r == same_filters(*self, *other),
    {
        if self.audio != other.audio || self.midi != other.midi {
            return false;
        }
        match &self.tracks {
            TrackFilter::All => match &other.tracks {
                TrackFilter::All => true,
                TrackFilter::Selected(_) => false,
            },
            TrackFilter::Selected(a) => match &other.tracks {
                TrackFilter::All => false,
                TrackFilter::Selected(b) => {
                    let r = covers(a, b) && covers(b, a);
                    proof {
                        if r {
                            assert(a@.to_set() =~= b@.to_set());
                        } else if !covers_spec(a@, b@) {
                            let k = choose|k: int| 0 <= k < b@.len() && !a@.contains(#[trigger] b@[k]);
                            assert(b@.to_set().contains(b@[k]));
                        } else {
                            let k = choose|k: int| 0 <= k < a@.len() && !b@.contains(#[trigger] a@[k]);
                            assert(a@.to_set().contains(a@[k]));
                        }
                    }
                    r
                },
            },
        }
    }

    /// Chooses `track` in the track menu: see `toggled_selection`. A selection in ascending
    /// order stays in ascending order.
    pub fn toggle_track(&mut self, track: TrackId)
        ensures
            final(self).audio == old(self).audio,
            final(self).midi == old(self).midi,
            selected_tracks(*final(self)) == toggled_selection(selected_tracks(*old(self)), track),
            filter_ascending(*old(self)) ==> filter_ascending(*final(self)),
    {
        let mut tracks = TrackFilter::All;
        std::mem::swap(&mut tracks, &mut self.tracks);
        match tracks {
            TrackFilter::All => {
                let mut ids = Vec::new();
                ids.push(track);
                proof {
                    assert(ids@ =~= seq![track]);
                    lemma_singleton_to_set(track);
                }
                self.tracks = TrackFilter::Selected(ids);
            },
            TrackFilter::Selected(ids) => {
                if contains_track(&ids, track) {
                    let rest = without_track(&ids, track);
                    if rest.len() == 0 {
                        proof {
                            assert(rest@.to_set() =~= Set::<TrackId>::empty());
                        }
                        self.tracks = TrackFilter::All;
                    } else {
                        proof {
                            assert(rest@.to_set().contains(rest@[0]));
                        }
                        self.tracks = TrackFilter::Selected(rest);
                    }
                } else {
                    let mut ids = ids;
                    insert_ascending(&mut ids, track);
                    self.tracks = TrackFilter::Selected(ids);
                }
            },
        }
    }
}

/// The four columns of the graph, from left to right.
#[derive(Clone, Copy, Debug, PartialEq, Eq, Structural, PartialOrd, Ord, Hash)]
pub enum GraphColumn {
    SystemSources,
    ShoopSinks,
    ShoopSources,
    SystemSinks,
}

/// Columns whose endpoints send signal.
pub open spec fn column_is_source(column: GraphColumn) -> bool {
    column == GraphColumn::SystemSources || column == GraphColumn::ShoopSources
}

impl GraphColumn {
    /// The heading of the column.
    pub fn label(self) -> (r: &'static str)
        ensures
            r@ == match self {
                GraphColumn::SystemSources => "System sources"@,
                GraphColumn::ShoopSinks => "ShoopDaLoop sinks"@,
                GraphColumn::ShoopSources => "ShoopDaLoop sources"@,
                GraphColumn::SystemSinks => "System sinks"@,
            },
    {
        match self {
            GraphColumn::SystemSources => "System sources",
            GraphColumn::ShoopSinks => "ShoopDaLoop sinks",
            GraphColumn::ShoopSources => "ShoopDaLoop sources",
            GraphColumn::SystemSinks => "System sinks",
        }
    }

    /// Whether the column holds sources.
    pub fn is_source(self) -> (r: bool)
        ensures
            r == column_is_source(self),
    {
        match self {
            GraphColumn::SystemSources | GraphColumn::ShoopSources => true,
            _ => false,
        }
    }

    /// Whether the column draws its connectors on the right side.
    pub fn connector_on_right(self) -> (r: bool)
        ensures
            r == column_is_source(self),
    {
        match self {
            GraphColumn::SystemSources | GraphColumn::ShoopSources => true,
            _ => false,
        }
    }

    /// The columns in display order.
    pub fn ordered() -> (r: [GraphColumn; 4])
        ensures
            r@ == seq![GraphColumn::SystemSources, GraphColumn::ShoopSinks, GraphColumn::ShoopSources, GraphColumn::SystemSinks],
    {
        let r = [GraphColumn::SystemSources, GraphColumn::ShoopSinks, GraphColumn::ShoopSources, GraphColumn::SystemSinks];
        proof {
            assert(r@ =~= seq![GraphColumn::SystemSources, GraphColumn::ShoopSinks, GraphColumn::ShoopSources, GraphColumn::SystemSinks]);
        }
        r
    }
}

/// A drop from `source` to `sink` crosses the gap between two neighbouring columns:
/// system sources feed ShoopDaLoop sinks, ShoopDaLoop sources feed system sinks.
pub open spec fn spec_adjacent_columns(source: GraphColumn, sink: GraphColumn) -> bool {
    (source == GraphColumn::SystemSources && sink == GraphColumn::ShoopSinks)
        || (source == GraphColumn::ShoopSources && sink == GraphColumn::SystemSinks)
}

pub fn adjacent_columns(source: GraphColumn, sink: GraphColumn) -> (r: bool)
    ensures
        r == spec_adjacent_columns(source, sink),
{
    match (source, sink) {
        (GraphColumn::SystemSources, GraphColumn::ShoopSinks) => true,
        (GraphColumn::ShoopSources, GraphColumn::SystemSinks) => true,
        _ => false,
    }
}

/// An endpoint of the graph: an application port or a host port.
#[derive(Clone, Debug, PartialEq, Eq, PartialOrd, Ord, Hash)]
pub enum EndpointId {
    Application(PortId),
    Host(HostPortId),
}

/// Two endpoint identities name the same endpoint.
pub open spec fn same_endpoint(a: EndpointId, b: EndpointId) -> bool {
    match (a, b) {
        (EndpointId::Application(x), EndpointId::Application(y)) => x == y,
        (EndpointId::Host(x), EndpointId::Host(y)) => x.0@ == y.0@,
        _ => false,
    }
}

/// Endpoints are ordered: application ports by identity, then host ports by name.
pub open spec fn endpoint_less(a: EndpointId, b: EndpointId) -> bool {
    match (a, b) {
        (EndpointId::Application(x), EndpointId::Application(y)) => x.0 < y.0,
        (EndpointId::Application(_), EndpointId::Host(_)) => true,
        (EndpointId::Host(_), EndpointId::Application(_)) => false,
        (EndpointId::Host(x), EndpointId::Host(y)) => text_less(x.0@, y.0@),
    }
}

impl EndpointId {
    /// Whether two endpoint identities name the same endpoint.
    pub fn same_as(&self, other: &EndpointId) -> (r: bool)
        ensures
            r == same_endpoint(*self, *other),
    {
        match (self, other) {
            (EndpointId::Application(x), EndpointId::Application(y)) => *x == *y,
            (EndpointId::Host(x), EndpointId::Host(y)) => x.same_as(y),
            _ => false,
        }
    }

    /// A copy of this identity.
    pub fn duplicate(&self) -> (r: Self)
        ensures
            r == *self,
    {
        match self {
            EndpointId::Application(x) => EndpointId::Application(*x),
            EndpointId::Host(x) => EndpointId::Host(x.duplicate()),
        }
    }

    /// How two endpoint identities compare.
    pub fn compare(&self, other: &EndpointId) -> (r: TextOrder)
        ensures
            r == TextOrder::Less <==> endpoint_less(*self, *other),
            r == TextOrder::Greater <==> endpoint_less(*other, *self),
            r == TextOrder::Equal <==> same_endpoint(*self, *other),
    {
        match (self, other) {
            (EndpointId::Application(x), EndpointId::Application(y)) => {
                if x.0 < y.0 {
                    TextOrder::Less
                } else if x.0 > y.0 {
                    TextOrder::Greater
                } else {
                    TextOrder::Equal
                }
            },
            (EndpointId::Application(_), EndpointId::Host(_)) => TextOrder::Less,
            (EndpointId::Host(_), EndpointId::Application(_)) => TextOrder::Greater,
            (EndpointId::Host(x), EndpointId::Host(y)) => compare_text(x.as_str(), y.as_str()),
        }
    }
}

/// A port as the graph shows it.
#[derive(Clone, Debug, PartialEq, Eq)]
pub struct GraphEndpoint {
    pub id: EndpointId,
    pub column: GraphColumn,
    pub group: String,
    pub label: String,
    pub full_name: String,
    pub data_type: PortDataType,
    pub policy: ConnectionPolicy,
    pub pending: bool,
    pub error: Option<String>,
}

/// The state of a drawn link.
#[derive(Clone, Copy, Debug, PartialEq, Eq, Structural)]
pub enum GraphRouteState {
    Confirmed,
    PendingConnect,
    PendingDisconnect,
    Error,
}

/// A link as the graph draws it.
#[derive(Clone, Debug, PartialEq, Eq)]
pub struct GraphRoute {
    pub application_port_id: PortId,
    pub host_port_id: HostPortId,
    pub source: EndpointId,
    pub sink: EndpointId,
    pub data_type: PortDataType,
    pub policy: ConnectionPolicy,
    pub state: GraphRouteState,
    pub error: Option<String>,
}

/// A change that the interface asks the application for.
#[derive(Clone, Debug, PartialEq, Eq)]
pub enum AppIntent {
    SetPortConnected { port_id: PortId, host_port_id: HostPortId, connected: bool },
    SetLoopTimeline {
        loop_id: crate::ids::LoopId,
        start_offset: Option<i64>,
        preplay_samples: Option<u64>,
        loop_length: Option<u64>,
    },
    DeleteCompositeEvents {
        target_loop_id: crate::ids::LoopId,
        events: Vec<crate::composite::CompositeEventId>,
    },
    RelocateCompositeEvents {
        target_loop_id: crate::ids::LoopId,
        events: Vec<crate::composite::CompositeEventId>,
        start_iteration: u64,
        duplicate: bool,
    },
    SetCompositeLoopCycles {
        target_loop_id: crate::ids::LoopId,
        event: crate::composite::CompositeEventId,
        n_cycles: Option<u32>,
    },
    SetCompositeEventMode {
        target_loop_id: crate::ids::LoopId,
        event: crate::composite::CompositeEventId,
        mode: crate::composite::LoopMode,
    },
    RequestLoopAudioExport { loop_id: crate::ids::LoopId, format: crate::loop_widget::LoopAudioExportFormat },
    RequestLoopMidiExport { loop_id: crate::ids::LoopId, format: crate::loop_widget::LoopMidiExportFormat },
    RequestLoopAudioImportPicker { loop_id: crate::ids::LoopId },
    RequestLoopMidiImportPicker { loop_id: crate::ids::LoopId },
    SetTrackLatencyPolicy { track_id: TrackId, policy: crate::latency::TrackLatencyPolicyState },
    SetTakeLatencyPolicy { loop_id: crate::ids::LoopId, capture_alignment_frames: i32 },
    ConsolidateTakeLatency { loop_id: crate::ids::LoopId },
}

/// The endpoints and links that the dialog draws.
#[derive(Clone, Debug, PartialEq, Eq)]
pub struct ConnectionGraph {
    pub system_sources: Vec<GraphEndpoint>,
    pub shoop_sinks: Vec<GraphEndpoint>,
    pub shoop_sources: Vec<GraphEndpoint>,
    pub system_sinks: Vec<GraphEndpoint>,
    pub routes: Vec<GraphRoute>,
}

/// The endpoints of a column.
pub open spec fn column_endpoints(graph: ConnectionGraph, column: GraphColumn) -> Seq<GraphEndpoint> {
    match column {
        GraphColumn::SystemSources => graph.system_sources@,
        GraphColumn::ShoopSinks => graph.shoop_sinks@,
        GraphColumn::ShoopSources => graph.shoop_sources@,
        GraphColumn::SystemSinks => graph.system_sinks@,
    }
}

/// All endpoints, column by column from left to right.
pub open spec fn all_endpoints(graph: ConnectionGraph) -> Seq<GraphEndpoint> {
    graph.system_sources@ + graph.shoop_sinks@ + graph.shoop_sources@ + graph.system_sinks@
}

/// Index in `all_endpoints` of the first endpoint with identity `id`.
#[verifier::opaque]
pub open spec fn first_endpoint(graph: ConnectionGraph, id: EndpointId) -> Option<int> {
    let all = all_endpoints(graph);
    if exists|k: int| 0 <= k < all.len() && same_endpoint(#[trigger] all[k].id, id) {
        Some(choose|k: int| 0 <= k < all.len() && same_endpoint(all[k].id, id)
            && forall|m: int| 0 <= m < k ==> !same_endpoint(#[trigger] all[m].id, id))
    } else {
        None
    }
}

/// The graph has a link from `source` to `sink` that did not fail.
pub open spec fn spec_blocks_pair(graph: ConnectionGraph, source: EndpointId, sink: EndpointId) -> bool {
    exists|k: int| 0 <= k < graph.routes@.len()
        && same_endpoint(#[trigger] graph.routes@[k].source, source)
        && same_endpoint(graph.routes@[k].sink, sink)
        && graph.routes@[k].state != GraphRouteState::Error
}

/// The application endpoint of a pair: the first one if it is one, else the second.
pub open spec fn spec_application_endpoint(first: GraphEndpoint, second: GraphEndpoint) -> Option<GraphEndpoint> {
    if first.id is Application {
        Some(first)
    } else if second.id is Application {
        Some(second)
    } else {
        None
    }
}

/// Dropping a drag from `source` on `sink` connects them: both are in the graph, the source is
/// in a source column and the sink is not, they carry the same data, their columns are
/// neighbours, the application side is managed by the user and has no change pending, and no
/// link that did not fail joins them already.
pub open spec fn spec_compatible_drop(graph: ConnectionGraph, source: EndpointId, sink: EndpointId) -> bool {
    let all = all_endpoints(graph);
    match (first_endpoint(graph, source), first_endpoint(graph, sink)) {
        (Some(s), Some(t)) => {
            let se = all[s];
            let te = all[t];
            &&& column_is_source(se.column)
            &&& !column_is_source(te.column)
            &&& se.data_type == te.data_type
            &&& spec_adjacent_columns(se.column, te.column)
            &&& match spec_application_endpoint(se, te) {
                Some(app) => app.policy == ConnectionPolicy::UserManaged && !app.pending,
                None => false,
            }
            &&& !spec_blocks_pair(graph, source, sink)
        },
        _ => false,
    }
}

/// A drag connects only ports of the same data type, from a source to a sink: when a drop is
/// compatible, the endpoints that the graph lists for the two identities carry audio both or
/// MIDI both, the dragged one sits in a source column and the other in a sink column.
pub proof fn lemma_drop_joins_same_data_type(graph: ConnectionGraph, source: EndpointId, sink: EndpointId)
    requires
        spec_compatible_drop(graph, source, sink),
    ensures
        first_endpoint(graph, source) is Some,
        first_endpoint(graph, sink) is Some,
        all_endpoints(graph)[first_endpoint(graph, source)->0].data_type
            == all_endpoints(graph)[first_endpoint(graph, sink)->0].data_type,
        column_is_source(all_endpoints(graph)[first_endpoint(graph, source)->0].column),
        !column_is_source(all_endpoints(graph)[first_endpoint(graph, sink)->0].column),
{
}

proof fn lemma_first_endpoint(graph: ConnectionGraph, id: EndpointId, k: int)
    requires
        0 <= k < all_endpoints(graph).len(),
        same_endpoint(all_endpoints(graph)[k].id, id),
        forall|m: int| 0 <= m < k ==> !same_endpoint(#[trigger] all_endpoints(graph)[m].id, id),
    ensures
        first_endpoint(graph, id) == Some(k),
{
    reveal(first_endpoint);
    let all = all_endpoints(graph);
    assert(exists|j: int| 0 <= j < all.len() && same_endpoint(#[trigger] all[j].id, id));
    let c = choose|j: int| 0 <= j < all.len() && same_endpoint(all[j].id, id)
        && forall|m: int| 0 <= m < j ==> !same_endpoint(#[trigger] all[m].id, id);
    if c < k {
        assert(!same_endpoint(all[c].id, id));
    } else if c > k {
        assert(!same_endpoint(all[k].id, id));
    }
}

impl ConnectionGraph {
    /// The endpoints of one column, in display order.
    pub fn column(&self, column: GraphColumn) -> (r: &Vec<GraphEndpoint>)
        ensures
            r@ == column_endpoints(*self, column),
    {
        match column {
            GraphColumn::SystemSources => &self.system_sources,
            GraphColumn::ShoopSinks => &self.shoop_sinks,
            GraphColumn::ShoopSources => &self.shoop_sources,
            GraphColumn::SystemSinks => &self.system_sinks,
        }
    }

    /// The first endpoint with identity `id`, searching the columns from left to right.
    pub fn endpoint(&self, id: &EndpointId) -> (r: Option<&GraphEndpoint>)
        ensures
            match first_endpoint(*self, *id) {
                Some(k) => r == Some(&all_endpoints(*self)[k]),
                None => r is None,
            },
    {
        let ghost all = all_endpoints(*self);
        let mut c: usize = 0;
        let ghost mut offset: int = 0;
        while c < 4
            invariant
                c <= 4,
                all == all_endpoints(*self),
                offset == if c == 0 { 0 } else if c == 1 { self.system_sources@.len() as int }
                    else if c == 2 { (self.system_sources@.len() + self.shoop_sinks@.len()) as int }
                    else if c == 3 { (self.system_sources@.len() + self.shoop_sinks@.len() + self.shoop_sources@.len()) as int }
                    else { all.len() as int },
                forall|m: int| 0 <= m < offset ==> !same_endpoint(#[trigger] all[m].id, *id),
            decreases 4 - c,
        {
            let column = if c == 0 { &self.system_sources } else if c == 1 { &self.shoop_sinks }
                else if c == 2 { &self.shoop_sources } else { &self.system_sinks };
            proof {
                assert(all.len() == self.system_sources@.len() + self.shoop_sinks@.len() + self.shoop_sources@.len() + self.system_sinks@.len());
                assert forall|k: int| 0 <= k < column@.len() implies #[trigger] all[offset + k] == column@[k] by {
                    if c == 0 {
                        assert(all[offset + k] == (self.system_sources@ + self.shoop_sinks@ + self.shoop_sources@)[offset + k]);
                        assert((self.system_sources@ + self.shoop_sinks@)[offset + k] == self.system_sources@[k]);
                    } else if c == 1 {
                        assert(all[offset + k] == (self.system_sources@ + self.shoop_sinks@ + self.shoop_sources@)[offset + k]);
                        assert((self.system_sources@ + self.shoop_sinks@)[offset + k] == self.shoop_sinks@[k]);
                    } else if c == 2 {
                        assert(all[offset + k] == (self.system_sources@ + self.shoop_sinks@ + self.shoop_sources@)[offset + k]);
                    }
                }
            }
            let mut i: usize = 0;
            while i < column.len()
                invariant
                    i <= column@.len(),
                    offset >= 0,
                    all == all_endpoints(*self),
                    offset + column@.len() <= all.len(),
                    forall|k: int| 0 <= k < column@.len() ==> #[trigger] all[offset + k] == column@[k],
                    forall|m: int| 0 <= m < offset + i ==> !same_endpoint(#[trigger] all[m].id, *id),
                decreases column@.len() - i,
            {
                if column[i].id.same_as(id) {
                    proof {
                        assert(all[offset + i] == column@[i as int]);
                        lemma_first_endpoint(*self, *id, offset + i);
                    }
                    return Some(&column[i]);
                }
                proof {
                    assert(all[offset + i] == column@[i as int]);
                }
                i = i + 1;
            }
            proof {
                offset = offset + column@.len();
            }
            c = c + 1;
        }
        proof {
            assert(offset == all.len());
            reveal(first_endpoint);
            if first_endpoint(*self, *id) is Some {
                let k = first_endpoint(*self, *id)->0;
                assert(same_endpoint(all[k].id, *id));
            }
        }
        None
    }

    /// Whether a link that did not fail already joins `source` to `sink`.
    pub fn blocks_pair(&self, source: &EndpointId, sink: &EndpointId) -> (r: bool)
        ensures
            r == spec_blocks_pair(*self, *source, *sink),
    {
        let mut i: usize = 0;
        while i < self.routes.len()
            invariant
                i <= self.routes@.len(),
                forall|k: int| 0 <= k < i ==> !(same_endpoint(#[trigger] self.routes@[k].source, *source)
                    && same_endpoint(self.routes@[k].sink, *sink)
                    && self.routes@[k].state != GraphRouteState::Error),
            decreases self.routes@.len() - i,
        {
            let route = &self.routes[i];
            if route.source.same_as(source) && route.sink.same_as(sink) && route.state != GraphRouteState::Error {
                return true;
            }
            i = i + 1;
        }
        false
    }

    /// Whether dropping a drag from `source` on `sink` would connect them.
    pub fn compatible_drop(&self, source: &EndpointId, sink: &EndpointId) -> (r: bool)
        ensures
            r == spec_compatible_drop(*self, *source, *sink),
    {
        let source_endpoint = self.endpoint(source);
        let sink_endpoint = self.endpoint(sink);
        match (source_endpoint, sink_endpoint) {
            (Some(se), Some(te)) => {
                if !se.column.is_source() || te.column.is_source() || se.data_type != te.data_type
                    || !adjacent_columns(se.column, te.column)
                {
                    return false;
                }
                let app_ok = match application_endpoint(se, te) {
                    Some(app) => app.policy == ConnectionPolicy::UserManaged && !app.pending,
                    None => false,
                };
                app_ok && !self.blocks_pair(source, sink)
            },
            _ => false,
        }
    }
}

/// The application endpoint of a pair: the first one if it is one, else the second.
pub fn application_endpoint<'a>(first: &'a GraphEndpoint, second: &'a GraphEndpoint) -> (r: Option<&'a GraphEndpoint>)
    ensures
        r == match spec_application_endpoint(*first, *second) {
            Some(e) => Some(&e),
            None => None::<&GraphEndpoint>,
        },
{
    if matches!(first.id, EndpointId::Application(_)) {
        Some(first)
    } else if matches!(second.id, EndpointId::Application(_)) {
        Some(second)
    } else {
        None
    }
}

/// The link change that a drop from `source` on `sink` asks for: set the link between the
/// application port and the host port of the pair to `connected`; nothing when the pair is not
/// one application port and one host port, or when the drop is not compatible.
pub fn route_intent(graph: &ConnectionGraph, source: &EndpointId, sink: &EndpointId, connected: bool) -> (r: Option<AppIntent>)
    ensures
        match (*source, *sink) {
            (EndpointId::Host(host), EndpointId::Application(port)) | (EndpointId::Application(port), EndpointId::Host(host)) =>
                if spec_compatible_drop(*graph, *source, *sink) {
                    r == Some(AppIntent::SetPortConnected { port_id: port, host_port_id: host, connected })
                } else {
                    r is None
                },
            _ => r is None,
        },
{
    let (application_port_id, host_port_id) = match (source, sink) {
        (EndpointId::Host(host), EndpointId::Application(port)) => (*port, host.duplicate()),
        (EndpointId::Application(port), EndpointId::Host(host)) => (*port, host.duplicate()),
        _ => return None,
    };
    if graph.compatible_drop(source, sink) {
        Some(AppIntent::SetPortConnected { port_id: application_port_id, host_port_id, connected })
    } else {
        None
    }
}

/// The letter that marks a port's data type.
pub fn data_type_glyph(data_type: PortDataType) -> (r: &'static str)
    ensures
        r@ == match data_type {
            PortDataType::Audio => "A"@,
            PortDataType::Midi => "M"@,
        },
{
    match data_type {
        PortDataType::Audio => "A",
        PortDataType::Midi => "M",
    }
}

/// The part of a port name after its first colon, or the whole name when it has none.
pub open spec fn spec_short_port_name(full_name: Seq<char>) -> Seq<char> {
    match full_name.index_of_first(':') {
        Some(i) => full_name.subrange(i + 1, full_name.len() as int),
        None => full_name,
    }
}

/// Client and port of a host port name: the parts before and after the first colon, or
/// `Other` and the whole name when it has none.
pub open spec fn spec_external_name_parts(full_name: Seq<char>) -> (Seq<char>, Seq<char>) {
    match full_name.index_of_first(':') {
        Some(i) => (full_name.subrange(0, i), full_name.subrange(i + 1, full_name.len() as int)),
        None => ("Other"@, full_name),
    }
}

pub fn short_port_name(full_name: &str) -> (r: &str)
    ensures
        r@ == spec_short_port_name(full_name@),
{
    match find_char(full_name, ':') {
        Some(i) => {
            proof {
                full_name@.index_of_first_ensures(':');
            }
            let n = full_name.unicode_len();
            full_name.substring_char(i + 1, n)
        },
        None => full_name,
    }
}

pub fn external_name_parts(full_name: &str) -> (r: (String, String))
    ensures
        (r.0@, r.1@) == spec_external_name_parts(full_name@),
{
    match find_char(full_name, ':') {
        Some(i) => {
            proof {
                full_name@.index_of_first_ensures(':');
            }
            let n = full_name.unicode_len();
            let client = full_name.substring_char(0, i).to_string();
            let port = full_name.substring_char(i + 1, n).to_string();
            (client, port)
        },
        None => ("Other".to_string(), full_name.to_string()),
    }
}

} // verus!

verus! {

/// A track's identity and name, for group headings.
#[derive(Clone, Debug, PartialEq, Eq)]
pub struct NamedTrack {
    pub id: TrackId,
    pub name: String,
}

/// A script's identity and name, for group headings.
#[derive(Clone, Debug, PartialEq, Eq)]
pub struct NamedScript {
    pub id: ScriptId,
    pub name: String,
}

/// The error names application port `port_id` and, when `host` is given, that host port.
pub open spec fn error_matches(error: ConnectionErrorState, port_id: PortId, host: Option<Seq<char>>) -> bool {
    &&& error.port_id == Some(port_id)
    &&& match host {
        None => true,
        Some(h) => error.external_port is Some && error.external_port->0@ == h,
    }
}

/// Index of the latest of the first `n` errors that names the port (and host port).
pub open spec fn latest_error_index(errors: Seq<ConnectionErrorState>, port_id: PortId, host: Option<Seq<char>>, n: int) -> Option<int>
    decreases n,
{
    if n <= 0 {
        None
    } else if error_matches(errors[n - 1], port_id, host) {
        Some(n - 1)
    } else {
        latest_error_index(errors, port_id, host, n - 1)
    }
}

/// Index of the latest of the first `n` errors that names host port `host`.
pub open spec fn latest_host_error_index(errors: Seq<ConnectionErrorState>, host: Seq<char>, n: int) -> Option<int>
    decreases n,
{
    if n <= 0 {
        None
    } else if errors[n - 1].external_port is Some && errors[n - 1].external_port->0@ == host {
        Some(n - 1)
    } else {
        latest_host_error_index(errors, host, n - 1)
    }
}

/// The message of the error at `index`, if any.
pub open spec fn error_message_at(errors: Seq<ConnectionErrorState>, index: Option<int>) -> Option<Seq<char>> {
    match index {
        Some(i) => Some(errors[i].message@),
        None => None,
    }
}

/// The view of an optional string.
pub open spec fn text_view(text: Option<String>) -> Option<Seq<char>> {
    match text {
        Some(t) => Some(t@),
        None => None,
    }
}

/// The message of the latest error that names application port `port_id` and, when
/// `host_port_id` is given, that host port.
pub fn latest_error(state: &ConnectionViewState, port_id: PortId, host_port_id: Option<&HostPortId>) -> (r: Option<String>)
    ensures
        text_view(r) == error_message_at(state.errors@, latest_error_index(state.errors@, port_id,
            match host_port_id { Some(h) => Some(h.0@), None => None }, state.errors@.len() as int)),
{
    let ghost host = match host_port_id { Some(h) => Some(h.0@), None => None::<Seq<char>> };
    let mut n: usize = state.errors.len();
    while n > 0
        invariant
            n <= state.errors@.len(),
            host == match host_port_id { Some(h) => Some(h.0@), None => None::<Seq<char>> },
            latest_error_index(state.errors@, port_id, host, state.errors@.len() as int)
                == latest_error_index(state.errors@, port_id, host, n as int),
        decreases n,
    {
        let error = &state.errors[n - 1];
        let host_ok = match host_port_id {
            None => true,
            Some(h) => match &error.external_port {
                Some(external) => str_equal(external.as_str(), h.as_str()),
                None => false,
            },
        };
        if error.port_id == Some(port_id) && host_ok {
            return Some(error.message.clone());
        }
        n = n - 1;
    }
    None
}

/// The message of the latest error that names host port `host`.
pub fn latest_host_error(state: &ConnectionViewState, host: &HostPortId) -> (r: Option<String>)
    ensures
        text_view(r) == error_message_at(state.errors@, latest_host_error_index(state.errors@, host.0@, state.errors@.len() as int)),
{
    let mut n: usize = state.errors.len();
    while n > 0
        invariant
            n <= state.errors@.len(),
            latest_host_error_index(state.errors@, host.0@, state.errors@.len() as int)
                == latest_host_error_index(state.errors@, host.0@, n as int),
        decreases n,
    {
        let error = &state.errors[n - 1];
        let matches_host = match &error.external_port {
            Some(external) => str_equal(external.as_str(), host.as_str()),
            None => false,
        };
        if matches_host {
            return Some(error.message.clone());
        }
        n = n - 1;
    }
    None
}

/// Index of the last of the first `n` tracks with identity `id`.
pub open spec fn last_track_index(tracks: Seq<NamedTrack>, id: TrackId, n: int) -> Option<int>
    decreases n,
{
    if n <= 0 {
        None
    } else if tracks[n - 1].id == id {
        Some(n - 1)
    } else {
        last_track_index(tracks, id, n - 1)
    }
}

/// Index of the last of the first `n` scripts with identity `id`.
pub open spec fn last_script_index(scripts: Seq<NamedScript>, id: ScriptId, n: int) -> Option<int>
    decreases n,
{
    if n <= 0 {
        None
    } else if scripts[n - 1].id == id {
        Some(n - 1)
    } else {
        last_script_index(scripts, id, n - 1)
    }
}

/// The heading of the group of an application port: its track's name, or `Script: ` and its
/// script's name, with `Track N` and `Script N` when the name is unknown. When several
/// entries have one identity, the last one names it.
pub open spec fn spec_group_label(owner: ApplicationPortOwner, tracks: Seq<NamedTrack>, scripts: Seq<NamedScript>) -> Seq<char> {
    match owner {
        ApplicationPortOwner::Track { track_id, .. } => match last_track_index(tracks, track_id, tracks.len() as int) {
            Some(i) => tracks[i].name@,
            None => "Track "@ + decimal(track_id.0 as nat),
        },
        ApplicationPortOwner::LuaControl { script_id, .. } => match last_script_index(scripts, script_id, scripts.len() as int) {
            Some(i) => "Script: "@ + scripts[i].name@,
            None => "Script "@ + decimal(script_id.0 as nat),
        },
    }
}

#[verifier::loop_isolation(false)]
pub fn application_group_label(owner: &ApplicationPortOwner, tracks: &Vec<NamedTrack>, scripts: &Vec<NamedScript>) -> (r: String)
    ensures
        r@ == spec_group_label(*owner, tracks@, scripts@),
{
    match owner {
        ApplicationPortOwner::Track { track_id, .. } => {
            let mut n: usize = tracks.len();
            while n > 0
                invariant
                    n <= tracks@.len(),
                    last_track_index(tracks@, *track_id, tracks@.len() as int) == last_track_index(tracks@, *track_id, n as int),
                decreases n,
            {
                if tracks[n - 1].id == *track_id {
                    return tracks[n - 1].name.clone();
                }
                n = n - 1;
            }
            let mut label = "Track ".to_string();
            let number = u64_text(track_id.0);
            label.append(number.as_str());
            label
        },
        ApplicationPortOwner::LuaControl { script_id, .. } => {
            let mut n: usize = scripts.len();
            while n > 0
                invariant
                    n <= scripts@.len(),
                    last_script_index(scripts@, *script_id, scripts@.len() as int) == last_script_index(scripts@, *script_id, n as int),
                decreases n,
            {
                if scripts[n - 1].id == *script_id {
                    let mut label = "Script: ".to_string();
                    label.append(scripts[n - 1].name.as_str());
                    return label;
                }
                n = n - 1;
            }
            let mut label = "Script ".to_string();
            let number = u64_text(script_id.0);
            label.append(number.as_str());
            label
        },
    }
}

/// The tooltip of an endpoint: its full name, data type and side, how its connections are
/// managed, whether a change is pending, and its latest error.
pub open spec fn spec_endpoint_hover(endpoint: GraphEndpoint, source: bool) -> Seq<char> {
    let head = endpoint.full_name@ + "\n"@
        + (if endpoint.data_type == PortDataType::Audio { "Audio"@ } else { "MIDI"@ })
        + " "@ + (if source { "source"@ } else { "sink"@ });
    let managed = if endpoint.policy == ConnectionPolicy::OwnerManaged {
        "\nConnections are managed by the port owner"@
    } else if source {
        "\nDrag to a compatible sink to connect"@
    } else {
        Seq::empty()
    };
    let pending = if endpoint.pending { "\nA connection change is pending"@ } else { Seq::empty() };
    let error = match endpoint.error {
        Some(e) => "\n"@ + e@,
        None => Seq::empty(),
    };
    head + managed + pending + error
}

pub fn endpoint_hover(endpoint: &GraphEndpoint, source: bool) -> (r: String)
    ensures
        r@ == spec_endpoint_hover(*endpoint, source),
{
    let mut text = endpoint.full_name.clone();
    text.append("\n");
    match endpoint.data_type {
        PortDataType::Audio => text.append("Audio"),
        PortDataType::Midi => text.append("MIDI"),
    }
    text.append(" ");
    if source {
        text.append("source");
    } else {
        text.append("sink");
    }
    if endpoint.policy == ConnectionPolicy::OwnerManaged {
        text.append("\nConnections are managed by the port owner");
    } else if source {
        text.append("\nDrag to a compatible sink to connect");
    }
    if endpoint.pending {
        text.append("\nA connection change is pending");
    }
    if let Some(error) = &endpoint.error {
        text.append("\n");
        text.append(error.as_str());
    }
    proof {
        let head = endpoint.full_name@ + "\n"@
            + (if endpoint.data_type == PortDataType::Audio { "Audio"@ } else { "MIDI"@ })
            + " "@ + (if source { "source"@ } else { "sink"@ });
        assert(head + Seq::<char>::empty() =~= head);
    }
    assert(text@ =~= spec_endpoint_hover(*endpoint, source));
    text
}

/// The tooltip of a link.
pub open spec fn spec_route_hover(route: GraphRoute) -> Seq<char> {
    match route.state {
        GraphRouteState::Confirmed => if route.policy == ConnectionPolicy::UserManaged {
            "Connected; click the line to disconnect"@
        } else {
            "Connected; managed by the port owner"@
        },
        GraphRouteState::PendingConnect => "Connecting…"@,
        GraphRouteState::PendingDisconnect => "Disconnecting…"@,
        GraphRouteState::Error => match route.error {
            Some(e) => e@,
            None => "Connection failed"@,
        },
    }
}

pub fn route_hover(route: &GraphRoute) -> (r: String)
    ensures
        r@ == spec_route_hover(*route),
{
    match route.state {
        GraphRouteState::Confirmed => {
            if route.policy == ConnectionPolicy::UserManaged {
                "Connected; click the line to disconnect".to_string()
            } else {
                "Connected; managed by the port owner".to_string()
            }
        },
        GraphRouteState::PendingConnect => "Connecting…".to_string(),
        GraphRouteState::PendingDisconnect => "Disconnecting…".to_string(),
        GraphRouteState::Error => match &route.error {
            Some(e) => e.clone(),
            None => "Connection failed".to_string(),
        },
    }
}

} // verus!

verus! {

/// A drag that started on a source connector.
#[derive(Clone, Debug, PartialEq, Eq)]
pub struct DragState {
    pub source: EndpointId,
    pub revision: u64,
    pub filters: ConnectionFilters,
}

/// The state of the connections dialog between frames.
#[derive(Debug)]
pub struct ConnectionDialog {
    open: bool,
    scope: ConnectionScope,
    filters: ConnectionFilters,
    drag: Option<DragState>,
}

/// The disconnect that clicking a drawn link asks for: only links that the user manages and
/// that are confirmed can be disconnected, and not while a drag was under way.
pub open spec fn spec_route_click_intent(route: GraphRoute, was_dragging: bool) -> Option<AppIntent> {
    if !was_dragging && route.policy == ConnectionPolicy::UserManaged && route.state == GraphRouteState::Confirmed {
        Some(AppIntent::SetPortConnected { port_id: route.application_port_id, host_port_id: route.host_port_id, connected: false })
    } else {
        None
    }
}

pub fn route_click_intent(route: &GraphRoute, was_dragging: bool) -> (r: Option<AppIntent>)
    ensures
        r == spec_route_click_intent(*route, was_dragging),
{
    if !was_dragging && route.policy == ConnectionPolicy::UserManaged && route.state == GraphRouteState::Confirmed {
        Some(AppIntent::SetPortConnected {
            port_id: route.application_port_id,
            host_port_id: route.host_port_id.duplicate(),
            connected: false,
        })
    } else {
        None
    }
}

impl ConnectionFilters {
    /// A copy of these filters.
    pub fn duplicate(&self) -> (r: Self)
        ensures
            same_filters(r, *self),
    {
        let tracks = match &self.tracks {
            TrackFilter::All => TrackFilter::All,
            TrackFilter::Selected(ids) => {
                let copy = ids.clone();
                assert(copy@ =~= ids@);
                TrackFilter::Selected(copy)
            },
        };
        ConnectionFilters { audio: self.audio, midi: self.midi, tracks }
    }
}

impl ConnectionDialog {
    /// A closed dialog for all tracks.
    pub fn new() -> (r: Self)
        ensures
            !r.spec_is_open(),
            r.spec_scope() == ConnectionScope::AllTracks,
            (r.spec_filters().audio, r.spec_filters().midi, selected_tracks(r.spec_filters())) == scope_filters(ConnectionScope::AllTracks),
            r.spec_drag() is None,
    {
        ConnectionDialog {
            open: false,
            scope: ConnectionScope::AllTracks,
            filters: ConnectionFilters::for_scope(ConnectionScope::AllTracks),
            drag: None,
        }
    }

    pub closed spec fn spec_is_open(self) -> bool {
        self.open
    }

    pub closed spec fn spec_scope(self) -> ConnectionScope {
        self.scope
    }

    pub closed spec fn spec_filters(self) -> ConnectionFilters {
        self.filters
    }

    pub closed spec fn spec_drag(self) -> Option<DragState> {
        self.drag
    }

    /// Opens the dialog on `scope`, always with that scope's filters and no drag.
    pub fn open(&mut self, scope: ConnectionScope)
        ensures
            final(self).spec_is_open(),
            final(self).spec_scope() == scope,
            (final(self).spec_filters().audio, final(self).spec_filters().midi, selected_tracks(final(self).spec_filters()))
                == scope_filters(scope),
            final(self).spec_drag() is None,
    {
        self.scope = scope;
        self.filters = ConnectionFilters::for_scope(scope);
        self.drag = None;
        self.open = true;
    }

    pub fn is_open(&self) -> (r: bool)
        ensures
            r == self.spec_is_open(),
    {
        self.open
    }

    pub fn scope(&self) -> (r: ConnectionScope)
        ensures
            r == self.spec_scope(),
    {
        self.scope
    }

    pub fn filters(&self) -> (r: &ConnectionFilters)
        ensures
            *r == self.spec_filters(),
    {
        &self.filters
    }

    /// The tracks that the filter selects, each once and in ascending order; `None` for all
    /// tracks.
    pub fn selected_tracks(&self) -> (r: Option<Vec<TrackId>>)
        ensures
            match r {
                Some(ids) => selected_tracks(self.spec_filters()) == Some(ids@.to_set()) && tracks_ascending(ids@),
                None => selected_tracks(self.spec_filters()) is None,
            },
    {
        match &self.filters.tracks {
            TrackFilter::All => None,
            TrackFilter::Selected(ids) => {
                let mut listed: Vec<TrackId> = Vec::new();
                let mut i: usize = 0;
                while i < ids.len()
                    invariant
                        i <= ids@.len(),
                        listed@.to_set() == ids@.take(i as int).to_set(),
                        tracks_ascending(listed@),
                    decreases ids@.len() - i,
                {
                    insert_ascending(&mut listed, ids[i]);
                    proof {
                        assert(ids@.take(i + 1) =~= ids@.take(i as int).push(ids@[i as int]));
                        ids@.take(i as int).lemma_push_to_set_commute(ids@[i as int]);
                    }
                    i = i + 1;
                }
                proof {
                    assert(ids@.take(ids@.len() as int) =~= ids@);
                }
                Some(listed)
            },
        }
    }

    /// The window was closed or kept open; closing it ends any drag.
    pub fn set_window_open(&mut self, open: bool)
        ensures
            final(self).spec_is_open() == open,
            final(self).spec_scope() == old(self).spec_scope(),
            final(self).spec_filters() == old(self).spec_filters(),
            final(self).spec_drag() == if open { old(self).spec_drag() } else { None },
    {
        if !open {
            self.drag = None;
        }
        self.open = open;
    }

    /// The audio and MIDI toggles; a change of filters ends any drag.
    pub fn set_data_type_filters(&mut self, audio: bool, midi: bool)
        ensures
            final(self).spec_filters().audio == audio,
            final(self).spec_filters().midi == midi,
            selected_tracks(final(self).spec_filters()) == selected_tracks(old(self).spec_filters()),
            final(self).spec_is_open() == old(self).spec_is_open(),
            final(self).spec_scope() == old(self).spec_scope(),
            final(self).spec_drag() == if audio == old(self).spec_filters().audio && midi == old(self).spec_filters().midi {
                old(self).spec_drag()
            } else {
                None
            },
    {
        if self.filters.audio != audio || self.filters.midi != midi {
            self.drag = None;
        }
        self.filters.audio = audio;
        self.filters.midi = midi;
    }

    /// Chooses `track` in the track menu (see `toggled_selection`); the change of filters
    /// ends any drag.
    pub fn toggle_track_filter(&mut self, track: TrackId)
        ensures
            selected_tracks(final(self).spec_filters()) == toggled_selection(selected_tracks(old(self).spec_filters()), track),
            final(self).spec_drag() is None,
            final(self).spec_is_open() == old(self).spec_is_open(),
            final(self).spec_scope() == old(self).spec_scope(),
            final(self).spec_filters().audio == old(self).spec_filters().audio,
            final(self).spec_filters().midi == old(self).spec_filters().midi,
    {
        self.filters.toggle_track(track);
        self.drag = None;
    }

    /// Shows all tracks; a change of filters ends any drag.
    pub fn show_all_tracks(&mut self)
        ensures
            selected_tracks(final(self).spec_filters()) is None,
            final(self).spec_filters().audio == old(self).spec_filters().audio,
            final(self).spec_filters().midi == old(self).spec_filters().midi,
            final(self).spec_is_open() == old(self).spec_is_open(),
            final(self).spec_scope() == old(self).spec_scope(),
            final(self).spec_drag() == if selected_tracks(old(self).spec_filters()) is None { old(self).spec_drag() } else { None },
    {
        let was_all = match &self.filters.tracks {
            TrackFilter::All => true,
            TrackFilter::Selected(_) => false,
        };
        if !was_all {
            self.drag = None;
        }
        self.filters.tracks = TrackFilter::All;
    }

    /// Whether a drag is under way.
    pub fn is_dragging(&self) -> (r: bool)
        ensures
            r == self.spec_drag() is Some,
    {
        self.drag.is_some()
    }

    /// A drag starts on the connector of `source` while the graph shows snapshot `revision`.
    pub fn begin_drag(&mut self, source: &EndpointId, revision: u64)
        ensures
            final(self).spec_drag() is Some,
            final(self).spec_drag()->0.source == *source,
            final(self).spec_drag()->0.revision == revision,
            same_filters(final(self).spec_drag()->0.filters, old(self).spec_filters()),
            final(self).spec_is_open() == old(self).spec_is_open(),
            final(self).spec_scope() == old(self).spec_scope(),
            final(self).spec_filters() == old(self).spec_filters(),
    {
        self.drag = Some(DragState { source: source.duplicate(), revision, filters: self.filters.duplicate() });
    }

    /// A drag survives only while the graph shows the snapshot and filters it started with.
    pub fn drop_stale_drag(&mut self, revision: u64)
        ensures
            final(self).spec_is_open() == old(self).spec_is_open(),
            final(self).spec_scope() == old(self).spec_scope(),
            final(self).spec_filters() == old(self).spec_filters(),
            final(self).spec_drag() == match old(self).spec_drag() {
                Some(d) => if d.revision == revision && same_filters(d.filters, old(self).spec_filters()) {
                    Some(d)
                } else {
                    None
                },
                None => None,
            },
    {
        let stale = match &self.drag {
            Some(drag) => drag.revision != revision || !drag.filters.same_as(&self.filters),
            None => false,
        };
        if stale {
            self.drag = None;
        }
    }

    /// The drag is released over `sink` (or over nothing): a compatible drop asks to connect
    /// the pair. The drag ends either way.
    pub fn release_drag(&mut self, graph: &ConnectionGraph, sink: Option<&EndpointId>) -> (r: Vec<AppIntent>)
        ensures
            final(self).spec_drag() is None,
            final(self).spec_is_open() == old(self).spec_is_open(),
            final(self).spec_scope() == old(self).spec_scope(),
            final(self).spec_filters() == old(self).spec_filters(),
            match (old(self).spec_drag(), sink) {
                (Some(d), Some(s)) => match (d.source, *s) {
                    (EndpointId::Host(host), EndpointId::Application(port)) | (EndpointId::Application(port), EndpointId::Host(host)) =>
                        if spec_compatible_drop(*graph, d.source, *s) {
                            r@ == seq![AppIntent::SetPortConnected { port_id: port, host_port_id: host, connected: true }]
                        } else {
                            r@.len() == 0
                        },
                    _ => r@.len() == 0,
                },
                _ => r@.len() == 0,
            },
    {
        let mut intents: Vec<AppIntent> = Vec::new();
        match (&self.drag, sink) {
            (Some(drag), Some(sink)) => {
                if let Some(intent) = route_intent(graph, &drag.source, sink, true) {
                    intents.push(intent);
                }
            },
            _ => {},
        }
        self.drag = None;
        proof {
            if intents@.len() == 1 {
                assert(intents@ =~= seq![intents@[0]]);
            }
        }
        intents
    }
}

} // verus!
