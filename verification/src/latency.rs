//! Latency observations, compensation policies and their totals.

use vstd::prelude::*;

verus! {

/// How certain a latency observation is.
#[derive(Clone, Copy, Debug, PartialEq, Eq, Structural)]
pub enum LatencyCertaintyState {
    Exact,
    Range,
    Estimated,
    ManualOnly,
    Unknown,
}

/// A latency that a provider reports, in frames.
#[derive(Clone, Copy, Debug, PartialEq, Eq, Structural)]
pub struct LatencyObservationState {
    pub minimum_frames: Option<u32>,
    pub maximum_frames: Option<u32>,
    pub certainty: LatencyCertaintyState,
    pub sample_rate: u32,
    pub revision: u64,
}

/// Nothing observed.
pub open spec fn unknown_observation() -> LatencyObservationState {
    LatencyObservationState {
        minimum_frames: None,
        maximum_frames: None,
        certainty: LatencyCertaintyState::Unknown,
        sample_rate: 0,
        revision: 0,
    }
}

impl LatencyObservationState {
    /// Nothing observed.
    pub fn unknown() -> (r: Self)
        ensures
            r == unknown_observation(),
    {
        LatencyObservationState {
            minimum_frames: None,
            maximum_frames: None,
            certainty: LatencyCertaintyState::Unknown,
            sample_rate: 0,
            revision: 0,
        }
    }
}

} // verus!

verus! {

/// A source of latency that compensation can account for.
#[derive(Clone, Copy, Debug, PartialEq, Eq, Structural)]
pub enum LatencyComponentKind {
    ExternalCapture,
    Processor,
    CuePlayback,
    BackendBuffering,
    Manual,
}

/// How a component's latency is chosen.
#[derive(Clone, Copy, Debug, PartialEq, Eq, Structural)]
pub enum LatencyValueMode {
    Automatic,
    Manual(u32),
    AutomaticPlusTrim(i32),
}

/// Which end of an observed range an automatic value takes.
#[derive(Clone, Copy, Debug, PartialEq, Eq, Structural)]
pub enum LatencyRangeSelectionState {
    Minimum,
    Midpoint,
    Maximum,
}

/// The policy of one latency component.
#[derive(Clone, Copy, Debug, PartialEq, Eq, Structural)]
pub struct LatencyComponentPolicyState {
    pub kind: LatencyComponentKind,
    pub enabled: bool,
    pub value_mode: LatencyValueMode,
    pub range_selection: LatencyRangeSelectionState,
}

/// The output on which a performance hears the cue.
#[derive(Clone, Debug, PartialEq, Eq)]
pub enum CueOutputSelection {
    ApplicationPort(crate::ids::PortId),
    HostPort(crate::ids::HostPortId),
}

/// A track's latency compensation policy.
#[derive(Clone, Debug, PartialEq, Eq)]
pub struct TrackLatencyPolicyState {
    pub revision: u64,
    pub cue_followed: bool,
    pub cue_output: Option<CueOutputSelection>,
    pub pending: bool,
    pub components: Vec<LatencyComponentPolicyState>,
}

/// The components in the order the panel lists them.
pub open spec fn component_kind_at(k: int) -> LatencyComponentKind {
    if k == 0 { LatencyComponentKind::ExternalCapture }
    else if k == 1 { LatencyComponentKind::Processor }
    else if k == 2 { LatencyComponentKind::CuePlayback }
    else if k == 3 { LatencyComponentKind::BackendBuffering }
    else { LatencyComponentKind::Manual }
}

/// Index of the first component of `kind`.
pub open spec fn first_component(components: Seq<LatencyComponentPolicyState>, kind: LatencyComponentKind) -> Option<int> {
    components.map_values(|c: LatencyComponentPolicyState| c.kind).index_of_first(kind)
}

/// The policy of `kind`: the first one given, else disabled, automatic (manual zero for the
/// manual correction) and taking the maximum.
pub open spec fn normalized_component(components: Seq<LatencyComponentPolicyState>, kind: LatencyComponentKind) -> LatencyComponentPolicyState {
    match first_component(components, kind) {
        Some(i) => components[i],
        None => LatencyComponentPolicyState {
            kind,
            enabled: false,
            value_mode: if kind == LatencyComponentKind::Manual { LatencyValueMode::Manual(0) } else { LatencyValueMode::Automatic },
            range_selection: LatencyRangeSelectionState::Maximum,
        },
    }
}

impl CueOutputSelection {
    /// A copy of this selection.
    pub fn duplicate(&self) -> (r: Self)
        ensures
            r == *self,
    {
        match self {
            CueOutputSelection::ApplicationPort(id) => CueOutputSelection::ApplicationPort(*id),
            CueOutputSelection::HostPort(id) => CueOutputSelection::HostPort(id.duplicate()),
        }
    }
}

fn component_policy_for(components: &Vec<LatencyComponentPolicyState>, kind: LatencyComponentKind) -> (r: LatencyComponentPolicyState)
    ensures
        r == normalized_component(components@, kind),
{
    let ghost kinds = components@.map_values(|c: LatencyComponentPolicyState| c.kind);
    let mut i: usize = 0;
    while i < components.len()
        invariant
            i <= components@.len(),
            kinds == components@.map_values(|c: LatencyComponentPolicyState| c.kind),
            forall|k: int| 0 <= k < i ==> kinds[k] != kind,
        decreases components@.len() - i,
    {
        if components[i].kind == kind {
            proof {
                kinds.index_of_first_ensures(kind);
                assert(kinds[i as int] == kind);
                match kinds.index_of_first(kind) {
                    Some(j) => {
                        if j < i { assert(kinds[j] != kind); }
                        if j > i { assert(kinds.contains(kind)); }
                    },
                    None => { assert(kinds.contains(kind)); },
                }
            }
            return components[i];
        }
        i = i + 1;
    }
    proof {
        kinds.index_of_first_ensures(kind);
        if let Some(j) = kinds.index_of_first(kind) {
            assert(kinds[j] == kind);
        }
    }
    LatencyComponentPolicyState {
        kind,
        enabled: false,
        value_mode: if kind == LatencyComponentKind::Manual { LatencyValueMode::Manual(0) } else { LatencyValueMode::Automatic },
        range_selection: LatencyRangeSelectionState::Maximum,
    }
}

/// The policy with one entry per component, in panel order, at most `max_components` of them;
/// each is the first given for its kind or the default. The other fields are kept.
pub fn normalized_policy(policy: &TrackLatencyPolicyState, max_components: usize) -> (r: TrackLatencyPolicyState)
    ensures
        r.revision == policy.revision,
        r.cue_followed == policy.cue_followed,
        r.cue_output == policy.cue_output,
        r.pending == policy.pending,
        r.components@.len() == if max_components < 5 { max_components as nat } else { 5 },
        forall|k: int| 0 <= k < r.components@.len() ==> r.components@[k] == normalized_component(policy.components@, component_kind_at(k)),
{
    let mut components: Vec<LatencyComponentPolicyState> = Vec::new();
    let mut k: usize = 0;
    while k < 5
        invariant
            k <= 5,
            components@.len() == k,
            forall|m: int| 0 <= m < k ==> components@[m] == normalized_component(policy.components@, component_kind_at(m)),
        decreases 5 - k,
    {
        let kind = if k == 0 { LatencyComponentKind::ExternalCapture }
            else if k == 1 { LatencyComponentKind::Processor }
            else if k == 2 { LatencyComponentKind::CuePlayback }
            else if k == 3 { LatencyComponentKind::BackendBuffering }
            else { LatencyComponentKind::Manual };
        components.push(component_policy_for(&policy.components, kind));
        k = k + 1;
    }
    components.truncate(max_components);
    TrackLatencyPolicyState {
        revision: policy.revision,
        cue_followed: policy.cue_followed,
        cue_output: match &policy.cue_output {
            Some(c) => Some(c.duplicate()),
            None => None,
        },
        pending: policy.pending,
        components,
    }
}

/// Both ends of the observed range are known.
pub open spec fn is_known(o: LatencyObservationState) -> bool {
    o.minimum_frames is Some && o.maximum_frames is Some
}

/// Some observation is known.
pub open spec fn any_known(obs: Seq<LatencyObservationState>) -> bool {
    exists|i: int| 0 <= i < obs.len() && is_known(#[trigger] obs[i])
}

/// `m` is the least minimum of the known observations.
pub open spec fn least_known_minimum(obs: Seq<LatencyObservationState>, m: u32) -> bool {
    &&& exists|i: int| 0 <= i < obs.len() && is_known(#[trigger] obs[i]) && obs[i].minimum_frames->0 == m
    &&& forall|i: int| 0 <= i < obs.len() && is_known(#[trigger] obs[i]) ==> m <= obs[i].minimum_frames->0
}

/// `m` is the greatest maximum of the known observations.
pub open spec fn greatest_known_maximum(obs: Seq<LatencyObservationState>, m: u32) -> bool {
    &&& exists|i: int| 0 <= i < obs.len() && is_known(#[trigger] obs[i]) && obs[i].maximum_frames->0 == m
    &&& forall|i: int| 0 <= i < obs.len() && is_known(#[trigger] obs[i]) ==> obs[i].maximum_frames->0 <= m
}

/// `m` is the greatest sample rate of the known observations.
pub open spec fn greatest_known_sample_rate(obs: Seq<LatencyObservationState>, m: u32) -> bool {
    &&& exists|i: int| 0 <= i < obs.len() && is_known(#[trigger] obs[i]) && obs[i].sample_rate == m
    &&& forall|i: int| 0 <= i < obs.len() && is_known(#[trigger] obs[i]) ==> obs[i].sample_rate <= m
}

/// `m` is the greatest revision of the known observations.
pub open spec fn greatest_known_revision(obs: Seq<LatencyObservationState>, m: u64) -> bool {
    &&& exists|i: int| 0 <= i < obs.len() && is_known(#[trigger] obs[i]) && obs[i].revision == m
    &&& forall|i: int| 0 <= i < obs.len() && is_known(#[trigger] obs[i]) ==> obs[i].revision <= m
}

/// Every known observation is an estimate.
pub open spec fn all_known_estimated(obs: Seq<LatencyObservationState>) -> bool {
    forall|i: int| 0 <= i < obs.len() && is_known(#[trigger] obs[i]) ==> obs[i].certainty == LatencyCertaintyState::Estimated
}

/// `r` combines the known observations of `obs`: the widest range, exact when it is one value,
/// an estimate when all are estimates, else a range; the greatest sample rate and revision.
/// With no known observation, nothing is known.
pub open spec fn is_aggregate(obs: Seq<LatencyObservationState>, r: LatencyObservationState) -> bool {
    if !any_known(obs) {
        r == unknown_observation()
    } else {
        &&& r.minimum_frames is Some && least_known_minimum(obs, r.minimum_frames->0)
        &&& r.maximum_frames is Some && greatest_known_maximum(obs, r.maximum_frames->0)
        &&& r.certainty == if r.minimum_frames == r.maximum_frames {
            LatencyCertaintyState::Exact
        } else if all_known_estimated(obs) {
            LatencyCertaintyState::Estimated
        } else {
            LatencyCertaintyState::Range
        }
        &&& greatest_known_sample_rate(obs, r.sample_rate)
        &&& greatest_known_revision(obs, r.revision)
    }
}

pub fn aggregate_observations(observations: &Vec<LatencyObservationState>) -> (r: LatencyObservationState)
    ensures
        is_aggregate(observations@, r),
{
    let ghost obs = observations@;
    let mut found = false;
    let mut minimum: u32 = 0;
    let mut maximum: u32 = 0;
    let mut sample_rate: u32 = 0;
    let mut revision: u64 = 0;
    let mut estimated = true;
    let mut i: usize = 0;
    while i < observations.len()
        invariant
            obs == observations@,
            i <= obs.len(),
            found == any_known(obs.take(i as int)),
            found ==> least_known_minimum(obs.take(i as int), minimum),
            found ==> greatest_known_maximum(obs.take(i as int), maximum),
            found ==> greatest_known_sample_rate(obs.take(i as int), sample_rate),
            found ==> greatest_known_revision(obs.take(i as int), revision),
            estimated == all_known_estimated(obs.take(i as int)),
        decreases obs.len() - i,
    {
        let o = observations[i];
        let ghost before = obs.take(i as int);
        let ghost after = obs.take(i + 1);
        proof {
            assert forall|k: int| 0 <= k < i implies #[trigger] after[k] == before[k] by {}
            assert(after[i as int] == o);
        }
        match (o.minimum_frames, o.maximum_frames) {
            (Some(lo), Some(hi)) => {
                if !found || lo < minimum {
                    minimum = lo;
                }
                if !found || hi > maximum {
                    maximum = hi;
                }
                if !found || o.sample_rate > sample_rate {
                    sample_rate = o.sample_rate;
                }
                if !found || o.revision > revision {
                    revision = o.revision;
                }
                if o.certainty != LatencyCertaintyState::Estimated {
                    estimated = false;
                }
                found = true;
                proof {
                    assert(is_known(after[i as int]));
                    assert forall|k: int| 0 <= k < after.len() && is_known(#[trigger] after[k]) implies minimum <= after[k].minimum_frames->0 by {
                        if k < i { assert(before[k] == after[k]); }
                    }
                    assert forall|k: int| 0 <= k < after.len() && is_known(#[trigger] after[k]) implies after[k].maximum_frames->0 <= maximum by {
                        if k < i { assert(before[k] == after[k]); }
                    }
                    assert forall|k: int| 0 <= k < after.len() && is_known(#[trigger] after[k]) implies after[k].sample_rate <= sample_rate by {
                        if k < i { assert(before[k] == after[k]); }
                    }
                    assert forall|k: int| 0 <= k < after.len() && is_known(#[trigger] after[k]) implies after[k].revision <= revision by {
                        if k < i { assert(before[k] == after[k]); }
                    }
                    if minimum != lo {
                        let k = choose|k: int| 0 <= k < before.len() && is_known(#[trigger] before[k]) && before[k].minimum_frames->0 == minimum;
                        assert(after[k] == before[k]);
                    }
                    if maximum != hi {
                        let k = choose|k: int| 0 <= k < before.len() && is_known(#[trigger] before[k]) && before[k].maximum_frames->0 == maximum;
                        assert(after[k] == before[k]);
                    }
                    if sample_rate != o.sample_rate {
                        let k = choose|k: int| 0 <= k < before.len() && is_known(#[trigger] before[k]) && before[k].sample_rate == sample_rate;
                        assert(after[k] == before[k]);
                    }
                    if revision != o.revision {
                        let k = choose|k: int| 0 <= k < before.len() && is_known(#[trigger] before[k]) && before[k].revision == revision;
                        assert(after[k] == before[k]);
                    }
                    assert(estimated == all_known_estimated(after)) by {
                        if estimated {
                            assert forall|k: int| 0 <= k < after.len() && is_known(#[trigger] after[k]) implies after[k].certainty == LatencyCertaintyState::Estimated by {
                                if k < i { assert(before[k] == after[k]); }
                            }
                        }
                    }
                    assert(any_known(after));
                }
            },
            _ => {
                proof {
                    assert(!is_known(after[i as int]));
                    assert(any_known(after) == any_known(before)) by {
                        if any_known(after) {
                            let k = choose|k: int| 0 <= k < after.len() && is_known(#[trigger] after[k]);
                            assert(before[k] == after[k]);
                        }
                        if any_known(before) {
                            let k = choose|k: int| 0 <= k < before.len() && is_known(#[trigger] before[k]);
                            assert(before[k] == after[k]);
                        }
                    }
                    assert forall|k: int| 0 <= k < after.len() && is_known(#[trigger] after[k]) implies k < i && before[k] == after[k] by {}
                    if found {
                        let k = choose|k: int| 0 <= k < before.len() && is_known(#[trigger] before[k]) && before[k].minimum_frames->0 == minimum;
                        assert(after[k] == before[k]);
                        let k2 = choose|k: int| 0 <= k < before.len() && is_known(#[trigger] before[k]) && before[k].maximum_frames->0 == maximum;
                        assert(after[k2] == before[k2]);
                        let k3 = choose|k: int| 0 <= k < before.len() && is_known(#[trigger] before[k]) && before[k].sample_rate == sample_rate;
                        assert(after[k3] == before[k3]);
                        let k4 = choose|k: int| 0 <= k < before.len() && is_known(#[trigger] before[k]) && before[k].revision == revision;
                        assert(after[k4] == before[k4]);
                    }
                    assert(estimated == all_known_estimated(after)) by {
                        if !estimated {
                            let k = choose|k: int| 0 <= k < before.len() && is_known(#[trigger] before[k]) && before[k].certainty != LatencyCertaintyState::Estimated;
                            assert(after[k] == before[k]);
                        }
                    }
                }
            },
        }
        i = i + 1;
    }
    proof {
        assert(obs.take(obs.len() as int) =~= obs);
    }
    if !found {
        return LatencyObservationState::unknown();
    }
    let certainty = if minimum == maximum {
        LatencyCertaintyState::Exact
    } else if estimated {
        LatencyCertaintyState::Estimated
    } else {
        LatencyCertaintyState::Range
    };
    LatencyObservationState {
        minimum_frames: Some(minimum),
        maximum_frames: Some(maximum),
        certainty,
        sample_rate,
        revision,
    }
}

/// Law: when every known observation has its minimum no greater than its maximum, so has
/// their combination.
pub proof fn lemma_aggregate_range_is_ordered(obs: Seq<LatencyObservationState>, r: LatencyObservationState)
    requires
        is_aggregate(obs, r),
        forall|i: int| 0 <= i < obs.len() && is_known(#[trigger] obs[i]) ==> obs[i].minimum_frames->0 <= obs[i].maximum_frames->0,
    ensures
        is_known(r) ==> r.minimum_frames->0 <= r.maximum_frames->0,
{
    if any_known(obs) {
        let k = choose|k: int| 0 <= k < obs.len() && is_known(#[trigger] obs[k]) && obs[k].minimum_frames->0 == r.minimum_frames->0;
        assert(obs[k].maximum_frames->0 <= r.maximum_frames->0);
    }
}

} // verus!

verus! {

/// The latency facts of a track that the panel reads.
#[derive(Clone, Debug, PartialEq, Eq)]
pub struct LatencyTrackState {
    pub id: crate::ids::TrackId,
    pub port_ids: Vec<crate::ids::PortId>,
    pub fx_latency: Option<LatencyObservationState>,
    pub latency_policy: TrackLatencyPolicyState,
}

/// The latency facts of the running backend that the panel reads.
#[derive(Clone, Copy, Debug, PartialEq, Eq, Structural)]
pub struct LatencyStatus {
    pub sample_rate: u32,
    pub backend_capture_latency: LatencyObservationState,
}

/// What the panel knows of the running backend.
#[derive(Clone, Copy)]
pub struct LatencyPanelContext<'a> {
    pub status: &'a LatencyStatus,
    pub connections: &'a crate::ports::ConnectionViewState,
}

/// The capture latencies of the track's input ports, in port order.
pub open spec fn capture_observations(track: LatencyTrackState, connections: crate::ports::ConnectionViewState) -> Seq<LatencyObservationState> {
    connections.application_ports@
        .filter(|p: crate::ports::ApplicationPortState| track.port_ids@.contains(p.id) && p.direction == crate::ports::PortDirection::Input)
        .map_values(|p: crate::ports::ApplicationPortState| p.capture_latency)
}

/// The playback latencies of the application ports linked to host port `host`, in link order.
pub open spec fn cue_host_observations(connections: crate::ports::ConnectionViewState, host: Seq<char>) -> Seq<LatencyObservationState> {
    let ports = connections.application_ports@;
    connections.confirmed_links@
        .filter(|l: crate::ports::ConfirmedConnectionState| l.host_port_id.0@ == host
            && crate::ports::first_application_port(ports, l.application_port_id) is Some)
        .map_values(|l: crate::ports::ConfirmedConnectionState| ports[crate::ports::first_application_port(ports, l.application_port_id)->0].playback_latency)
}

/// The current observation of one component of a track: the combined capture latency of its
/// inputs, its processor's latency, the playback latency of its cue output, or the backend's
/// buffering; nothing for the manual correction or without a backend.
pub open spec fn is_current_observation(track: LatencyTrackState, runtime: Option<(LatencyStatus, crate::ports::ConnectionViewState)>,
    kind: LatencyComponentKind, r: LatencyObservationState) -> bool {
    match kind {
        LatencyComponentKind::ExternalCapture => match runtime {
            Some((_, c)) => is_aggregate(capture_observations(track, c), r),
            None => r == unknown_observation(),
        },
        LatencyComponentKind::Processor => match track.fx_latency {
            Some(l) => r == l,
            None => r == unknown_observation(),
        },
        LatencyComponentKind::CuePlayback => match runtime {
            None => r == unknown_observation(),
            Some((_, c)) => match track.latency_policy.cue_output {
                Some(CueOutputSelection::ApplicationPort(id)) => match crate::ports::first_application_port(c.application_ports@, id) {
                    Some(i) => r == c.application_ports@[i].playback_latency,
                    None => r == unknown_observation(),
                },
                Some(CueOutputSelection::HostPort(id)) => is_aggregate(cue_host_observations(c, id.0@), r),
                None => r == unknown_observation(),
            },
        },
        LatencyComponentKind::BackendBuffering => match runtime {
            Some((s, _)) => r == s.backend_capture_latency,
            None => r == unknown_observation(),
        },
        LatencyComponentKind::Manual => r == unknown_observation(),
    }
}

/// The runtime as plain values.
pub open spec fn runtime_view(runtime: Option<&LatencyPanelContext>) -> Option<(LatencyStatus, crate::ports::ConnectionViewState)> {
    match runtime {
        Some(c) => Some((*c.status, *c.connections)),
        None => None,
    }
}

fn contains_port(ids: &Vec<crate::ids::PortId>, id: crate::ids::PortId) -> (r: bool)
    ensures
        r == ids@.contains(id),
{
    let mut i: usize = 0;
    while i < ids.len()
        invariant
            i <= ids@.len(),
            forall|k: int| 0 <= k < i ==> ids@[k] != id,
        decreases ids@.len() - i,
    {
        if ids[i] == id {
            proof {
                assert(ids@[i as int] == id);
            }
            return true;
        }
        i = i + 1;
    }
    false
}

fn capture_observation_list(track: &LatencyTrackState, connections: &crate::ports::ConnectionViewState) -> (r: Vec<LatencyObservationState>)
    ensures
        r@ == capture_observations(*track, *connections),
{
    let ghost pred = |p: crate::ports::ApplicationPortState| track.port_ids@.contains(p.id) && p.direction == crate::ports::PortDirection::Input;
    let ghost f = |p: crate::ports::ApplicationPortState| p.capture_latency;
    let ports = &connections.application_ports;
    let mut out: Vec<LatencyObservationState> = Vec::new();
    let mut i: usize = 0;
    while i < ports.len()
        invariant
            i <= ports@.len(),
            *ports == connections.application_ports,
            pred == |p: crate::ports::ApplicationPortState| track.port_ids@.contains(p.id) && p.direction == crate::ports::PortDirection::Input,
            f == |p: crate::ports::ApplicationPortState| p.capture_latency,
            out@ == ports@.take(i as int).filter(pred).map_values(f),
        decreases ports@.len() - i,
    {
        proof {
            reveal_with_fuel(Seq::<_>::filter, 1);
            assert(ports@.take(i + 1).drop_last() =~= ports@.take(i as int));
        }
        let port = &ports[i];
        if contains_port(&track.port_ids, port.id) && port.direction == crate::ports::PortDirection::Input {
            out.push(port.capture_latency);
        }
        proof {
            assert(out@ =~= ports@.take(i + 1).filter(pred).map_values(f));
        }
        i = i + 1;
    }
    proof {
        assert(ports@.take(ports@.len() as int) =~= ports@);
    }
    out
}

fn cue_host_observation_list(connections: &crate::ports::ConnectionViewState, host: &crate::ids::HostPortId) -> (r: Vec<LatencyObservationState>)
    ensures
        r@ == cue_host_observations(*connections, host.0@),
{
    let ghost ports = connections.application_ports@;
    let ghost pred = |l: crate::ports::ConfirmedConnectionState| l.host_port_id.0@ == host.0@
        && crate::ports::first_application_port(ports, l.application_port_id) is Some;
    let ghost f = |l: crate::ports::ConfirmedConnectionState| ports[crate::ports::first_application_port(ports, l.application_port_id)->0].playback_latency;
    let links = &connections.confirmed_links;
    let mut out: Vec<LatencyObservationState> = Vec::new();
    let mut i: usize = 0;
    while i < links.len()
        invariant
            i <= links@.len(),
            *links == connections.confirmed_links,
            ports == connections.application_ports@,
            pred == |l: crate::ports::ConfirmedConnectionState| l.host_port_id.0@ == host.0@
                && crate::ports::first_application_port(ports, l.application_port_id) is Some,
            f == |l: crate::ports::ConfirmedConnectionState| ports[crate::ports::first_application_port(ports, l.application_port_id)->0].playback_latency,
            out@ == links@.take(i as int).filter(pred).map_values(f),
        decreases links@.len() - i,
    {
        proof {
            reveal_with_fuel(Seq::<_>::filter, 1);
            assert(links@.take(i + 1).drop_last() =~= links@.take(i as int));
        }
        let link = &links[i];
        if link.host_port_id.same_as(host) {
            match crate::ports::find_application_port(connections, link.application_port_id) {
                Some(port) => {
                    out.push(port.playback_latency);
                },
                None => {},
            }
        }
        proof {
            assert(out@ =~= links@.take(i + 1).filter(pred).map_values(f));
        }
        i = i + 1;
    }
    proof {
        assert(links@.take(links@.len() as int) =~= links@);
    }
    out
}

pub fn current_observation(track: &LatencyTrackState, runtime: Option<&LatencyPanelContext>, kind: LatencyComponentKind) -> (r: LatencyObservationState)
    ensures
        is_current_observation(*track, runtime_view(runtime), kind, r),
{
    match kind {
        LatencyComponentKind::ExternalCapture => match runtime {
            Some(c) => aggregate_observations(&capture_observation_list(track, c.connections)),
            None => LatencyObservationState::unknown(),
        },
        LatencyComponentKind::Processor => match track.fx_latency {
            Some(l) => l,
            None => LatencyObservationState::unknown(),
        },
        LatencyComponentKind::CuePlayback => match runtime {
            None => LatencyObservationState::unknown(),
            Some(c) => match &track.latency_policy.cue_output {
                Some(CueOutputSelection::ApplicationPort(id)) => match crate::ports::find_application_port(c.connections, *id) {
                    Some(port) => port.playback_latency,
                    None => LatencyObservationState::unknown(),
                },
                Some(CueOutputSelection::HostPort(id)) => aggregate_observations(&cue_host_observation_list(c.connections, id)),
                None => LatencyObservationState::unknown(),
            },
        },
        LatencyComponentKind::BackendBuffering => match runtime {
            Some(c) => c.status.backend_capture_latency,
            None => LatencyObservationState::unknown(),
        },
        LatencyComponentKind::Manual => LatencyObservationState::unknown(),
    }
}

/// The frames that a component contributes, given its current observation: a manual value
/// as set; otherwise the chosen end of the observed range (the midpoint rounds down), plus
/// the trim, when that is known and lands in `u32`.
pub open spec fn component_frames(c: LatencyComponentPolicyState, o: LatencyObservationState) -> Option<int> {
    match c.value_mode {
        LatencyValueMode::Manual(frames) => Some(frames as int),
        _ => if !is_known(o) {
            None
        } else {
            let lo = o.minimum_frames->0 as int;
            let hi = o.maximum_frames->0 as int;
            let automatic = match c.range_selection {
                LatencyRangeSelectionState::Minimum => lo,
                LatencyRangeSelectionState::Midpoint => lo + (hi - lo) / 2,
                LatencyRangeSelectionState::Maximum => hi,
            };
            match c.value_mode {
                LatencyValueMode::AutomaticPlusTrim(trim) => {
                    let v = automatic + trim;
                    if 0 <= v <= u32::MAX { Some(v) } else { None }
                },
                _ => Some(automatic),
            }
        },
    }
}

/// A trim adds to the automatic value: a component in automatic-plus-trim mode contributes
/// the value that the same component would contribute in plain automatic mode, plus the trim,
/// whenever that sum lies in `u32`, and nothing otherwise. So a positive trim never lowers the
/// contribution and a negative one never raises it.
pub proof fn lemma_trim_adds_to_automatic(c: LatencyComponentPolicyState, o: LatencyObservationState, trim: i32)
    requires
        c.value_mode == LatencyValueMode::AutomaticPlusTrim(trim),
    ensures
        ({
            let plain = LatencyComponentPolicyState { value_mode: LatencyValueMode::Automatic, ..c };
            match component_frames(plain, o) {
                Some(a) => if 0 <= a + trim <= u32::MAX {
                    component_frames(c, o) == Some(a + trim)
                } else {
                    component_frames(c, o) is None
                },
                None => component_frames(c, o) is None,
            }
        }),
        component_frames(c, o) matches Some(v) ==> (trim >= 0 ==> v >= component_frames(
            LatencyComponentPolicyState { value_mode: LatencyValueMode::Automatic, ..c },
            o,
        )->0),
{
}

/// The component adds to the total: it is enabled, and the cue output only counts when the
/// performance follows the cue.
pub open spec fn component_counted(policy: TrackLatencyPolicyState, c: LatencyComponentPolicyState) -> bool {
    c.enabled && !(c.kind == LatencyComponentKind::CuePlayback && !policy.cue_followed)
}

/// The sum of the counted components among the first `n`, `None` when one of them has no value.
pub open spec fn counted_sum(policy: TrackLatencyPolicyState, observations: spec_fn(LatencyComponentKind) -> LatencyObservationState, n: int) -> Option<int>
    decreases n,
{
    if n <= 0 {
        Some(0)
    } else {
        match counted_sum(policy, observations, n - 1) {
            None => None,
            Some(total) => {
                let c = policy.components@[n - 1];
                if !component_counted(policy, c) {
                    Some(total)
                } else {
                    match component_frames(c, observations(c.kind)) {
                        None => None,
                        Some(v) => Some(total + v),
                    }
                }
            },
        }
    }
}

proof fn lemma_counted_sum_grows(policy: TrackLatencyPolicyState, observations: spec_fn(LatencyComponentKind) -> LatencyObservationState, n: int, m: int)
    requires
        0 <= n <= m,
        counted_sum(policy, observations, n) is Some,
        forall|k: int| 0 <= k < m ==> (#[trigger] component_frames(policy.components@[k], observations(policy.components@[k].kind)) matches Some(v) ==> v >= 0),
    ensures
        counted_sum(policy, observations, m) matches Some(t) ==> t >= counted_sum(policy, observations, n)->0,
    decreases m - n,
{
    if m > n {
        lemma_counted_sum_grows(policy, observations, n, m - 1);
        if counted_sum(policy, observations, m - 1) is None {
            assert(counted_sum(policy, observations, m) is None);
        }
    }
}

/// The total latency that the policy compensates: the sum of the counted components, `None`
/// when one of them has no value or the sum exceeds `u32`.
pub open spec fn spec_selected_total(policy: TrackLatencyPolicyState, observations: spec_fn(LatencyComponentKind) -> LatencyObservationState) -> Option<u32> {
    match counted_sum(policy, observations, policy.components@.len() as int) {
        Some(t) => if t <= u32::MAX { Some(t as u32) } else { None },
        None => None,
    }
}

fn component_frames_exec(c: &LatencyComponentPolicyState, o: &LatencyObservationState) -> (r: Option<u32>)
    requires
        !(c.value_mode is Manual) && c.range_selection == LatencyRangeSelectionState::Midpoint && is_known(*o)
            ==> o.minimum_frames->0 <= o.maximum_frames->0,
    ensures
        match r {
            Some(v) => component_frames(*c, *o) == Some(v as int),
            None => component_frames(*c, *o) is None,
        },
{
    match c.value_mode {
        LatencyValueMode::Manual(frames) => Some(frames),
        _ => {
            let (lo, hi) = match (o.minimum_frames, o.maximum_frames) {
                (Some(lo), Some(hi)) => (lo, hi),
                _ => return None,
            };
            let automatic = match c.range_selection {
                LatencyRangeSelectionState::Minimum => lo,
                LatencyRangeSelectionState::Midpoint => lo + (hi - lo) / 2,
                LatencyRangeSelectionState::Maximum => hi,
            };
            match c.value_mode {
                LatencyValueMode::AutomaticPlusTrim(trim) => {
                    let v = automatic as i64 + trim as i64;
                    if 0 <= v && v <= u32::MAX as i64 {
                        Some(v as u32)
                    } else {
                        None
                    }
                },
                _ => Some(automatic),
            }
        },
    }
}

/// The observations of the track, for each component kind.
pub open spec fn track_observations(track: LatencyTrackState, runtime: Option<(LatencyStatus, crate::ports::ConnectionViewState)>)
    -> spec_fn(LatencyComponentKind) -> LatencyObservationState {
    |kind: LatencyComponentKind| choose|o: LatencyObservationState| is_current_observation(track, runtime, kind, o)
}

/// A counted component whose value is the automatic midpoint of a known range.
pub open spec fn takes_midpoint(policy: TrackLatencyPolicyState, c: LatencyComponentPolicyState, o: LatencyObservationState) -> bool {
    component_counted(policy, c) && !(c.value_mode is Manual) && c.range_selection == LatencyRangeSelectionState::Midpoint
        && is_known(o)
}

/// Each counted automatic midpoint is taken of a well-ordered observed range.
pub open spec fn midpoints_well_ordered(policy: TrackLatencyPolicyState, observations: spec_fn(LatencyComponentKind) -> LatencyObservationState) -> bool {
    forall|k: int| 0 <= k < policy.components@.len()
        && takes_midpoint(policy, #[trigger] policy.components@[k], observations(policy.components@[k].kind))
        ==> observations(policy.components@[k].kind).minimum_frames->0 <= observations(policy.components@[k].kind).maximum_frames->0
}

/// Whether the midpoints that `selected_total` takes come from well-ordered ranges, so that
/// it may be called.
pub fn midpoints_ordered(policy: &TrackLatencyPolicyState, track: &LatencyTrackState, runtime: Option<&LatencyPanelContext>) -> (r: bool)
    ensures
        r == midpoints_well_ordered(*policy, track_observations(*track, runtime_view(runtime))),
{
    let ghost obs = track_observations(*track, runtime_view(runtime));
    let mut i: usize = 0;
    while i < policy.components.len()
        invariant
            i <= policy.components@.len(),
            obs == track_observations(*track, runtime_view(runtime)),
            forall|k: int| 0 <= k < i
                && takes_midpoint(*policy, #[trigger] policy.components@[k], obs(policy.components@[k].kind))
                ==> obs(policy.components@[k].kind).minimum_frames->0 <= obs(policy.components@[k].kind).maximum_frames->0,
        decreases policy.components@.len() - i,
    {
        let component = &policy.components[i];
        let manual = match component.value_mode {
            LatencyValueMode::Manual(_) => true,
            _ => false,
        };
        let counted = component.enabled && !(component.kind == LatencyComponentKind::CuePlayback && !policy.cue_followed);
        if counted && !manual && component.range_selection == LatencyRangeSelectionState::Midpoint {
            let observation = current_observation(track, runtime, component.kind);
            proof {
                lemma_current_observation_unique(*track, runtime_view(runtime), component.kind, observation, obs(component.kind));
                assert(policy.components@[i as int] == *component);
            }
            match (observation.minimum_frames, observation.maximum_frames) {
                (Some(lo), Some(hi)) => {
                    if hi < lo {
                        proof {
                            assert(takes_midpoint(*policy, policy.components@[i as int], obs(policy.components@[i as int].kind)));
                        }
                        return false;
                    }
                },
                _ => {},
            }
        }
        proof {
            assert(policy.components@[i as int] == *component);
        }
        i = i + 1;
    }
    true
}

proof fn lemma_current_observation_unique(track: LatencyTrackState, runtime: Option<(LatencyStatus, crate::ports::ConnectionViewState)>,
    kind: LatencyComponentKind, a: LatencyObservationState, b: LatencyObservationState)
    requires
        is_current_observation(track, runtime, kind, a),
        is_current_observation(track, runtime, kind, b),
    ensures
        a == b,
{
    match kind {
        LatencyComponentKind::ExternalCapture => {
            if let Some((_, c)) = runtime {
                lemma_aggregate_unique(capture_observations(track, c), a, b);
            }
        },
        LatencyComponentKind::CuePlayback => {
            if let Some((_, c)) = runtime {
                if let Some(CueOutputSelection::HostPort(id)) = track.latency_policy.cue_output {
                    lemma_aggregate_unique(cue_host_observations(c, id.0@), a, b);
                }
            }
        },
        _ => {},
    }
}

proof fn lemma_aggregate_unique(obs: Seq<LatencyObservationState>, a: LatencyObservationState, b: LatencyObservationState)
    requires
        is_aggregate(obs, a),
        is_aggregate(obs, b),
    ensures
        a == b,
{
    if any_known(obs) {
        let ia = choose|i: int| 0 <= i < obs.len() && is_known(#[trigger] obs[i]) && obs[i].minimum_frames->0 == a.minimum_frames->0;
        let ib = choose|i: int| 0 <= i < obs.len() && is_known(#[trigger] obs[i]) && obs[i].minimum_frames->0 == b.minimum_frames->0;
        let ja = choose|i: int| 0 <= i < obs.len() && is_known(#[trigger] obs[i]) && obs[i].maximum_frames->0 == a.maximum_frames->0;
        let jb = choose|i: int| 0 <= i < obs.len() && is_known(#[trigger] obs[i]) && obs[i].maximum_frames->0 == b.maximum_frames->0;
        let sa = choose|i: int| 0 <= i < obs.len() && is_known(#[trigger] obs[i]) && obs[i].sample_rate == a.sample_rate;
        let sb = choose|i: int| 0 <= i < obs.len() && is_known(#[trigger] obs[i]) && obs[i].sample_rate == b.sample_rate;
        let ra = choose|i: int| 0 <= i < obs.len() && is_known(#[trigger] obs[i]) && obs[i].revision == a.revision;
        let rb = choose|i: int| 0 <= i < obs.len() && is_known(#[trigger] obs[i]) && obs[i].revision == b.revision;
    }
}

/// The total latency that the track's policy compensates under `policy`, with the current
/// observations of the track.
pub fn selected_total(policy: &TrackLatencyPolicyState, track: &LatencyTrackState, runtime: Option<&LatencyPanelContext>) -> (r: Option<u32>)
    requires
        midpoints_well_ordered(*policy, track_observations(*track, runtime_view(runtime))),
    ensures
        r == spec_selected_total(*policy, track_observations(*track, runtime_view(runtime))),
{
    let ghost obs = track_observations(*track, runtime_view(runtime));
    let mut total: u32 = 0;
    let mut i: usize = 0;
    while i < policy.components.len()
        invariant
            i <= policy.components@.len(),
            obs == track_observations(*track, runtime_view(runtime)),
            midpoints_well_ordered(*policy, obs),
            counted_sum(*policy, obs, i as int) == Some(total as int),
        decreases policy.components@.len() - i,
    {
        let component = &policy.components[i];
        if !component.enabled || (component.kind == LatencyComponentKind::CuePlayback && !policy.cue_followed) {
            i = i + 1;
            continue;
        }
        let observation = current_observation(track, runtime, component.kind);
        proof {
            lemma_current_observation_unique(*track, runtime_view(runtime), component.kind, observation, obs(component.kind));
            assert(policy.components@[i as int] == *component);
        }
        let value = match component_frames_exec(component, &observation) {
            Some(v) => v,
            None => {
                proof {
                    assert(counted_sum(*policy, obs, i + 1) is None);
                    lemma_counted_none_stays(*policy, obs, i + 1, policy.components@.len() as int);
                }
                return None;
            },
        };
        match total.checked_add(value) {
            Some(t) => {
                total = t;
            },
            None => {
                proof {
                    assert(counted_sum(*policy, obs, i + 1) == Some(total + value));
                    assert forall|k: int| 0 <= k < policy.components@.len() implies
                        (#[trigger] component_frames(policy.components@[k], obs(policy.components@[k].kind)) matches Some(v) ==> v >= 0) by {}
                    lemma_counted_sum_grows(*policy, obs, i + 1, policy.components@.len() as int);
                }
                return None;
            },
        }
        i = i + 1;
    }
    Some(total)
}

proof fn lemma_counted_none_stays(policy: TrackLatencyPolicyState, observations: spec_fn(LatencyComponentKind) -> LatencyObservationState, n: int, m: int)
    requires
        0 <= n <= m,
        counted_sum(policy, observations, n) is None,
    ensures
        counted_sum(policy, observations, m) is None,
    decreases m - n,
{
    if m > n {
        lemma_counted_none_stays(policy, observations, n, m - 1);
    }
}

} // verus!

verus! {

/// The observation that a take is compared with: the processor's when its latency is known,
/// else the capture latency when known, else none.
pub fn current_take_comparison(track: &LatencyTrackState, runtime: Option<&LatencyPanelContext>) -> (r: Option<LatencyObservationState>)
    ensures
        match r {
            Some(o) => (o.minimum_frames is Some && is_current_observation(*track, runtime_view(runtime), LatencyComponentKind::Processor, o))
                || (!(track_observations(*track, runtime_view(runtime))(LatencyComponentKind::Processor).minimum_frames is Some)
                    && o.minimum_frames is Some
                    && is_current_observation(*track, runtime_view(runtime), LatencyComponentKind::ExternalCapture, o)),
            None => track_observations(*track, runtime_view(runtime))(LatencyComponentKind::Processor).minimum_frames is None
                && track_observations(*track, runtime_view(runtime))(LatencyComponentKind::ExternalCapture).minimum_frames is None,
        },
{
    let processor = current_observation(track, runtime, LatencyComponentKind::Processor);
    proof {
        let obs = track_observations(*track, runtime_view(runtime));
        lemma_current_observation_unique(*track, runtime_view(runtime), LatencyComponentKind::Processor, processor, obs(LatencyComponentKind::Processor));
    }
    if processor.minimum_frames.is_some() {
        return Some(processor);
    }
    let capture = current_observation(track, runtime, LatencyComponentKind::ExternalCapture);
    proof {
        let obs = track_observations(*track, runtime_view(runtime));
        lemma_current_observation_unique(*track, runtime_view(runtime), LatencyComponentKind::ExternalCapture, capture, obs(LatencyComponentKind::ExternalCapture));
    }
    if capture.minimum_frames.is_some() {
        Some(capture)
    } else {
        None
    }
}

pub fn component_label(kind: LatencyComponentKind) -> (r: &'static str)
    ensures
        r@ == match kind {
            LatencyComponentKind::ExternalCapture => "External capture"@,
            LatencyComponentKind::Processor => "Processor / FX"@,
            LatencyComponentKind::CuePlayback => "Cue / output"@,
            LatencyComponentKind::BackendBuffering => "Backend buffering"@,
            LatencyComponentKind::Manual => "Manual correction"@,
        },
{
    match kind {
        LatencyComponentKind::ExternalCapture => "External capture",
        LatencyComponentKind::Processor => "Processor / FX",
        LatencyComponentKind::CuePlayback => "Cue / output",
        LatencyComponentKind::BackendBuffering => "Backend buffering",
        LatencyComponentKind::Manual => "Manual correction",
    }
}

/// The position of a value mode in the mode selector.
pub fn mode_index(mode: LatencyValueMode) -> (r: u8)
    ensures
        r == match mode {
            LatencyValueMode::Automatic => 0u8,
            LatencyValueMode::Manual(_) => 1u8,
            LatencyValueMode::AutomaticPlusTrim(_) => 2u8,
        },
{
    match mode {
        LatencyValueMode::Automatic => 0,
        LatencyValueMode::Manual(_) => 1,
        LatencyValueMode::AutomaticPlusTrim(_) => 2,
    }
}

/// The name of the value mode at a selector position.
pub fn mode_label(mode: u8) -> (r: &'static str)
    ensures
        r@ == if mode == 1 { "Manual"@ } else if mode == 2 { "Auto + trim"@ } else { "Automatic"@ },
{
    match mode {
        1 => "Manual",
        2 => "Auto + trim",
        _ => "Automatic",
    }
}

pub fn range_label(range: LatencyRangeSelectionState) -> (r: &'static str)
    ensures
        r@ == match range {
            LatencyRangeSelectionState::Minimum => "Minimum"@,
            LatencyRangeSelectionState::Midpoint => "Midpoint"@,
            LatencyRangeSelectionState::Maximum => "Maximum"@,
        },
{
    match range {
        LatencyRangeSelectionState::Minimum => "Minimum",
        LatencyRangeSelectionState::Midpoint => "Midpoint",
        LatencyRangeSelectionState::Maximum => "Maximum",
    }
}

pub fn certainty_label(certainty: LatencyCertaintyState) -> (r: &'static str)
    ensures
        r@ == match certainty {
            LatencyCertaintyState::Exact => "exact"@,
            LatencyCertaintyState::Range => "range"@,
            LatencyCertaintyState::Estimated => "estimated"@,
            LatencyCertaintyState::ManualOnly => "manual only"@,
            LatencyCertaintyState::Unknown => "unknown"@,
        },
{
    match certainty {
        LatencyCertaintyState::Exact => "exact",
        LatencyCertaintyState::Range => "range",
        LatencyCertaintyState::Estimated => "estimated",
        LatencyCertaintyState::ManualOnly => "manual only",
        LatencyCertaintyState::Unknown => "unknown",
    }
}

/// `N frames` for one value, `N..M frames` for a range, `unknown` otherwise.
pub open spec fn spec_observation_range_text(minimum: Option<u32>, maximum: Option<u32>) -> Seq<char> {
    match (minimum, maximum) {
        (Some(lo), Some(hi)) => if lo == hi {
            crate::text::decimal(lo as nat) + " frames"@
        } else {
            crate::text::decimal(lo as nat) + ".."@ + crate::text::decimal(hi as nat) + " frames"@
        },
        _ => "unknown"@,
    }
}

pub fn observation_range_text(minimum: Option<u32>, maximum: Option<u32>) -> (r: String)
    ensures
        r@ == spec_observation_range_text(minimum, maximum),
{
    match (minimum, maximum) {
        (Some(lo), Some(hi)) => {
            let mut text = crate::text::u32_text(lo);
            if lo != hi {
                text.append("..");
                let upper = crate::text::u32_text(hi);
                text.append(upper.as_str());
            }
            text.append(" frames");
            text
        },
        _ => "unknown".to_string(),
    }
}

/// The value mode that a choice of the mode selector gives: manual and trim start at zero.
pub open spec fn spec_value_mode_for_choice(choice: u8) -> LatencyValueMode {
    if choice == 1 {
        LatencyValueMode::Manual(0)
    } else if choice == 2 {
        LatencyValueMode::AutomaticPlusTrim(0)
    } else {
        LatencyValueMode::Automatic
    }
}

/// The value mode for a selector choice: see `spec_value_mode_for_choice`.
pub fn value_mode_for_choice(choice: u8) -> (r: LatencyValueMode)
    ensures
        r == spec_value_mode_for_choice(choice),
{
    if choice == 1 {
        LatencyValueMode::Manual(0)
    } else if choice == 2 {
        LatencyValueMode::AutomaticPlusTrim(0)
    } else {
        LatencyValueMode::Automatic
    }
}

/// The mode selector of a component was set to `choice`: a different mode starts afresh,
/// the same one keeps its value. Returns whether the component changed.
pub fn choose_value_mode(component: &mut LatencyComponentPolicyState, choice: u8) -> (changed: bool)
    ensures
        changed == (choice != mode_index_of(old(component).value_mode)),
        *final(component) == if changed {
            LatencyComponentPolicyState { value_mode: spec_value_mode_for_choice(choice), ..*old(component) }
        } else {
            *old(component)
        },
{
    if choice != mode_index(component.value_mode) {
        component.value_mode = value_mode_for_choice(choice);
        true
    } else {
        false
    }
}

/// The position of a value mode in the mode selector.
pub open spec fn mode_index_of(mode: LatencyValueMode) -> u8 {
    match mode {
        LatencyValueMode::Automatic => 0u8,
        LatencyValueMode::Manual(_) => 1u8,
        LatencyValueMode::AutomaticPlusTrim(_) => 2u8,
    }
}

/// The revision after `revision`, staying at the largest one.
pub open spec fn next_revision(revision: u64) -> u64 {
    if revision == u64::MAX { u64::MAX } else { (revision + 1) as u64 }
}

/// The policy that an edit commits: the edited policy, one revision after the one it was
/// edited from, no longer pending.
pub open spec fn spec_committed_policy(edited: TrackLatencyPolicyState, source_revision: u64) -> TrackLatencyPolicyState {
    TrackLatencyPolicyState { revision: next_revision(source_revision), pending: false, ..edited }
}

/// Commits an edited policy: see `spec_committed_policy`.
pub fn commit_policy_edit(edited: TrackLatencyPolicyState, source_revision: u64) -> (r: TrackLatencyPolicyState)
    ensures
        r == spec_committed_policy(edited, source_revision),
{
    let mut policy = edited;
    policy.revision = source_revision.saturating_add(1);
    policy.pending = false;
    policy
}

/// What happens in the latency panel.
#[derive(Clone, Debug, PartialEq, Eq)]
pub enum LatencyPanelEvent {
    /// The panel is drawn with no change.
    Frame,
    /// The policy was edited into this one.
    PolicyEdited(TrackLatencyPolicyState),
    /// The manual alignment of a take was set.
    TakeAlignmentEdited { loop_id: crate::ids::LoopId, frames: i32 },
    /// "Consolidate / bake" was clicked for a take.
    Consolidate { loop_id: crate::ids::LoopId },
    /// The window was closed.
    WindowClosed,
}

/// The requests that one event of an open panel gives for `track_id`, whose policy is at
/// `source_revision`: an edited policy is committed (see `spec_committed_policy`), a take's
/// alignment is set, a take is consolidated. A closed panel asks nothing.
pub open spec fn spec_panel_requests(open: bool, track_id: crate::ids::TrackId, source_revision: u64, event: LatencyPanelEvent) -> Seq<
    crate::connection::AppIntent,
> {
    if !open {
        Seq::empty()
    } else {
        match event {
            LatencyPanelEvent::PolicyEdited(policy) => seq![
                crate::connection::AppIntent::SetTrackLatencyPolicy {
                    track_id,
                    policy: spec_committed_policy(policy, source_revision),
                },
            ],
            LatencyPanelEvent::TakeAlignmentEdited { loop_id, frames } => seq![
                crate::connection::AppIntent::SetTakeLatencyPolicy { loop_id, capture_alignment_frames: frames },
            ],
            LatencyPanelEvent::Consolidate { loop_id } => seq![crate::connection::AppIntent::ConsolidateTakeLatency { loop_id }],
            _ => Seq::empty(),
        }
    }
}

/// The latency panel of a track: whether it is open, and the take alignments being edited,
/// by loop.
#[derive(Debug)]
pub struct LatencyPanel {
    open: bool,
    take_edits: std::collections::BTreeMap<u64, i32>,
}

impl LatencyPanel {
    /// A closed panel with no edits.
    pub fn new() -> (r: Self)
        ensures
            !r.is_open(),
            r.take_edits() == Map::<u64, i32>::empty(),
    {
        LatencyPanel { open: false, take_edits: std::collections::BTreeMap::new() }
    }

    pub closed spec fn is_open(self) -> bool {
        self.open
    }

    /// The alignment being edited for each loop, by the loop's raw identity.
    pub closed spec fn take_edits(self) -> Map<u64, i32> {
        self.take_edits@
    }

    /// Shows the panel.
    pub fn open(&mut self)
        ensures
            final(self).is_open(),
            final(self).take_edits() == old(self).take_edits(),
    {
        self.open = true;
    }

    /// Whether the panel is shown.
    pub fn shown(&self) -> (r: bool)
        ensures
            r == self.is_open(),
    {
        self.open
    }

    /// The panel's window was closed or kept open.
    pub fn set_window_open(&mut self, open: bool)
        ensures
            final(self).is_open() == open,
            final(self).take_edits() == old(self).take_edits(),
    {
        self.open = open;
    }

    /// The alignment that the take of `loop_id` shows for editing: the one being edited, or
    /// else its applied alignment, which from then on is the one being edited.
    pub fn take_edit(&mut self, loop_id: crate::ids::LoopId, applied: i32) -> (r: i32)
        ensures
            r == if old(self).take_edits().contains_key(loop_id.0) { old(self).take_edits()[loop_id.0] } else { applied },
            final(self).take_edits() == old(self).take_edits().insert(loop_id.0, r),
            final(self).is_open() == old(self).is_open(),
    {
        let r = match self.take_edits.get(&loop_id.0) {
            Some(v) => *v,
            None => applied,
        };
        self.take_edits.insert(loop_id.0, r);
        proof {
            if old(self).take_edits().contains_key(loop_id.0) {
                assert(old(self).take_edits().insert(loop_id.0, r) =~= old(self).take_edits());
            }
        }
        r
    }

    /// Forgets the edits of loops that the track no longer has.
    pub fn forget_missing_takes(&mut self, loop_ids: &Vec<crate::ids::LoopId>)
        ensures
            final(self).take_edits() == old(self).take_edits().restrict(loop_ids@.map_values(|l: crate::ids::LoopId| l.0).to_set()),
            final(self).is_open() == old(self).is_open(),
    {
        let mut kept: std::collections::BTreeMap<u64, i32> = std::collections::BTreeMap::new();
        let ghost keys = loop_ids@.map_values(|l: crate::ids::LoopId| l.0);
        let mut i: usize = 0;
        while i < loop_ids.len()
            invariant
                i <= loop_ids@.len(),
                keys == loop_ids@.map_values(|l: crate::ids::LoopId| l.0),
                kept@ == self.take_edits@.restrict(keys.take(i as int).to_set()),
            decreases loop_ids@.len() - i,
        {
            let id = loop_ids[i].0;
            proof {
                assert(keys.take(i + 1) =~= keys.take(i as int).push(id));
                keys.take(i as int).lemma_push_to_set_commute(id);
            }
            match self.take_edits.get(&id) {
                Some(v) => {
                    kept.insert(id, *v);
                },
                None => {},
            }
            i = i + 1;
            assert(kept@ =~= self.take_edits@.restrict(keys.take(i as int).to_set()));
        }
        assert(keys.take(i as int) =~= keys);
        self.take_edits = kept;
    }

    /// One event of the panel of track `track_id`, whose policy is at `source_revision`:
    /// the requests of `spec_panel_requests`; a take's edited alignment is remembered, and
    /// closing the window closes the panel.
    pub fn step(&mut self, track_id: crate::ids::TrackId, source_revision: u64, event: LatencyPanelEvent) -> (r: Vec<
        crate::connection::AppIntent,
    >)
        ensures
            r@ == spec_panel_requests(old(self).is_open(), track_id, source_revision, event),
            final(self).is_open() == (old(self).is_open() && !(event is WindowClosed)),
            final(self).take_edits() == match event {
                LatencyPanelEvent::TakeAlignmentEdited { loop_id, frames } => if old(self).is_open() {
                    old(self).take_edits().insert(loop_id.0, frames)
                } else {
                    old(self).take_edits()
                },
                _ => old(self).take_edits(),
            },
    {
        let mut requests: Vec<crate::connection::AppIntent> = Vec::new();
        if !self.open {
            return requests;
        }
        match event {
            LatencyPanelEvent::Frame => {},
            LatencyPanelEvent::PolicyEdited(policy) => {
                requests.push(crate::connection::AppIntent::SetTrackLatencyPolicy {
                    track_id,
                    policy: commit_policy_edit(policy, source_revision),
                });
            },
            LatencyPanelEvent::TakeAlignmentEdited { loop_id, frames } => {
                self.take_edits.insert(loop_id.0, frames);
                requests.push(crate::connection::AppIntent::SetTakeLatencyPolicy { loop_id, capture_alignment_frames: frames });
            },
            LatencyPanelEvent::Consolidate { loop_id } => {
                requests.push(crate::connection::AppIntent::ConsolidateTakeLatency { loop_id });
            },
            LatencyPanelEvent::WindowClosed => {
                self.open = false;
            },
        }
        proof {
            assert(requests@ =~= spec_panel_requests(old(self).is_open(), track_id, source_revision, event));
        }
        requests
    }
}

/// How the latency of a recorded take came about, as far as the panel warns about it.
#[derive(Clone, Debug, PartialEq, Eq)]
pub struct TakeLatencyProvenanceState {
    pub changed_during_operation: bool,
    pub incomplete: bool,
    pub finalizing: bool,
    pub deferred_mode: Option<crate::composite::LoopMode>,
    pub error: Option<String>,
}

/// How strongly a warning is shown.
#[derive(Clone, Copy, Debug, PartialEq, Eq, Structural)]
pub enum WarningLevel {
    Warning,
    Error,
}

/// A warning line of the latency panel.
#[derive(Clone, Debug, PartialEq, Eq)]
pub struct TakeWarning {
    pub level: WarningLevel,
    pub text: String,
}

pub open spec fn warning_view(w: TakeWarning) -> (WarningLevel, Seq<char>) {
    (w.level, w.text@)
}

pub open spec fn one_if(condition: bool, line: (WarningLevel, Seq<char>)) -> Seq<(WarningLevel, Seq<char>)> {
    if condition { seq![line] } else { Seq::empty() }
}

/// The warnings about a take, in this order: its provider latency changed after it was
/// latched; its retained margin was insufficient; its postroll is being finalized; a mode
/// change waits for compensated media; and the error it reported.
pub open spec fn spec_take_warnings(latency: TakeLatencyProvenanceState) -> Seq<(WarningLevel, Seq<char>)> {
    one_if(
        latency.changed_during_operation,
        (WarningLevel::Warning, "Provider latency changed after this operation was latched; the take remains frozen."@),
    ) + one_if(
        latency.incomplete,
        (WarningLevel::Error, "Retained latency margin was insufficient; consolidate, rerecord, or reduce compensation."@),
    ) + one_if(latency.finalizing, (WarningLevel::Warning, "Finalizing retained postroll…"@)) + match latency.deferred_mode {
        Some(mode) => seq![
            (
                WarningLevel::Warning,
                "Transition to "@ + crate::composite::loop_mode_text(mode)
                    + " is deferred until compensated media is ready."@,
            ),
        ],
        None => Seq::empty(),
    } + match latency.error {
        Some(e) => seq![(WarningLevel::Error, e@)],
        None => Seq::empty(),
    }
}

/// The warnings that the latency panel shows about a take (see `spec_take_warnings`).
pub fn take_warnings(latency: &TakeLatencyProvenanceState) -> (r: Vec<TakeWarning>)
    ensures
        r@.map_values(|w: TakeWarning| warning_view(w)) == spec_take_warnings(*latency),
{
    let mut out: Vec<TakeWarning> = Vec::new();
    if latency.changed_during_operation {
        out.push(TakeWarning {
            level: WarningLevel::Warning,
            text: "Provider latency changed after this operation was latched; the take remains frozen.".to_string(),
        });
    }
    let ghost first = out@.map_values(|w: TakeWarning| warning_view(w));
    if latency.incomplete {
        out.push(TakeWarning {
            level: WarningLevel::Error,
            text: "Retained latency margin was insufficient; consolidate, rerecord, or reduce compensation.".to_string(),
        });
    }
    let ghost second = out@.map_values(|w: TakeWarning| warning_view(w));
    if latency.finalizing {
        out.push(TakeWarning { level: WarningLevel::Warning, text: "Finalizing retained postroll…".to_string() });
    }
    let ghost third = out@.map_values(|w: TakeWarning| warning_view(w));
    match latency.deferred_mode {
        Some(mode) => {
            let mut text = "Transition to ".to_string();
            text.append(mode.name());
            text.append(" is deferred until compensated media is ready.");
            out.push(TakeWarning { level: WarningLevel::Warning, text });
        },
        None => {},
    }
    let ghost fourth = out@.map_values(|w: TakeWarning| warning_view(w));
    match &latency.error {
        Some(e) => {
            out.push(TakeWarning { level: WarningLevel::Error, text: e.clone() });
        },
        None => {},
    }
    proof {
        let c1 = one_if(
            latency.changed_during_operation,
            (WarningLevel::Warning, "Provider latency changed after this operation was latched; the take remains frozen."@),
        );
        assert(first =~= c1);
        assert(second =~= c1 + one_if(
            latency.incomplete,
            (WarningLevel::Error, "Retained latency margin was insufficient; consolidate, rerecord, or reduce compensation."@),
        ));
        assert(third =~= second + one_if(latency.finalizing, (WarningLevel::Warning, "Finalizing retained postroll…"@)));
        assert(out@.map_values(|w: TakeWarning| warning_view(w)) =~= spec_take_warnings(*latency));
    }
    out
}

} // verus!
