use shoop_egui::connection::{
    external_name_parts, short_port_name, ConnectionDialog, ConnectionFilters, ConnectionGraph,
    ConnectionScope, EndpointId, GraphColumn, GraphEndpoint, GraphRouteState, NamedScript,
    NamedTrack, TrackFilter,
};
use shoop_egui::ids::{HostPortId, PortId, ScriptId, TrackId};
use shoop_egui::latency::LatencyObservationState;
use shoop_egui::ports::{
    ApplicationPortOwner, ApplicationPortState, ConfirmedConnectionState, ConnectionErrorKind,
    ConnectionErrorState, ConnectionPolicy, ConnectionViewState, HostPortState,
    PendingConnectionState, PortDataType, PortDirection, PortRole, TrackPortOwnerKind,
};

fn application_port(
    id: u64,
    track_id: TrackId,
    name: &str,
    data_type: PortDataType,
    direction: PortDirection,
    policy: ConnectionPolicy,
) -> ApplicationPortState {
    ApplicationPortState {
        id: PortId::from_raw(id),
        owner: ApplicationPortOwner::Track { track_id, kind: TrackPortOwnerKind::Main },
        name: name.to_owned(),
        data_type,
        direction,
        role: match (data_type, direction) {
            (PortDataType::Audio, PortDirection::Input) => PortRole::AudioInput,
            (PortDataType::Audio, PortDirection::Output) => PortRole::AudioOutput,
            (PortDataType::Midi, PortDirection::Input) => PortRole::MidiInput,
            (PortDataType::Midi, PortDirection::Output) => PortRole::MidiOutput,
        },
        connection_policy: policy,
        capture_latency: LatencyObservationState::unknown(),
        playback_latency: LatencyObservationState::unknown(),
    }
}

fn host_port(id: &str, name: &str, data_type: PortDataType, direction: PortDirection) -> HostPortState {
    HostPortState { id: HostPortId::new(id), name: name.to_owned(), data_type, direction }
}

struct State {
    tracks: Vec<NamedTrack>,
    scripts: Vec<NamedScript>,
    connections: ConnectionViewState,
}

fn state() -> State {
    let one = TrackId::from_raw(1);
    let two = TrackId::from_raw(2);
    State {
        tracks: vec![
            NamedTrack { id: one, name: "One".to_owned() },
            NamedTrack { id: two, name: "Two".to_owned() },
        ],
        scripts: Vec::new(),
        connections: ConnectionViewState {
            revision: 2,
            loading: false,
            backend_available: true,
            application_ports: vec![
                application_port(
                    11,
                    one,
                    "one:audio_in",
                    PortDataType::Audio,
                    PortDirection::Input,
                    ConnectionPolicy::UserManaged,
                ),
                application_port(
                    12,
                    one,
                    "one:midi_out",
                    PortDataType::Midi,
                    PortDirection::Output,
                    ConnectionPolicy::UserManaged,
                ),
                application_port(
                    13,
                    two,
                    "two:audio_out",
                    PortDataType::Audio,
                    PortDirection::Output,
                    ConnectionPolicy::UserManaged,
                ),
            ],
            host_ports: vec![
                host_port("device:audio_source", "device:audio_source", PortDataType::Audio, PortDirection::Output),
                host_port("synth:midi_sink", "synth:midi_sink", PortDataType::Midi, PortDirection::Input),
                host_port("speaker:audio_sink", "speaker:audio_sink", PortDataType::Audio, PortDirection::Input),
                host_port("orphan:midi_source", "orphan:midi_source", PortDataType::Midi, PortDirection::Output),
            ],
            confirmed_links: vec![ConfirmedConnectionState {
                application_port_id: PortId::from_raw(12),
                host_port_id: HostPortId::new("synth:midi_sink"),
            }],
            pending_links: Vec::new(),
            errors: Vec::new(),
        },
    }
}

fn build(state: &State, filters: &ConnectionFilters) -> ConnectionGraph {
    ConnectionGraph::build(&state.connections, &state.tracks, &state.scripts, filters)
}

fn all_endpoints(graph: &ConnectionGraph) -> Vec<GraphEndpoint> {
    let mut all = Vec::new();
    for column in GraphColumn::ordered() {
        all.extend(graph.column(column).iter().cloned());
    }
    all
}

#[test]
fn graph_classifies_four_columns_and_prunes_incompatible_system_ports() {
    let state = state();
    let graph = build(&state, &ConnectionFilters::for_scope(ConnectionScope::AllTracks));
    assert_eq!(
        GraphColumn::ordered().map(GraphColumn::label),
        ["System sources", "ShoopDaLoop sinks", "ShoopDaLoop sources", "System sinks"]
    );
    assert_eq!(graph.column(GraphColumn::SystemSources).len(), 1);
    assert_eq!(graph.column(GraphColumn::ShoopSinks).len(), 1);
    assert_eq!(graph.column(GraphColumn::ShoopSources).len(), 2);
    assert_eq!(graph.column(GraphColumn::SystemSinks).len(), 2);
    assert!(all_endpoints(&graph).iter().all(|endpoint| endpoint.full_name != "orphan:midi_source"));
}

#[test]
fn data_type_and_multi_track_filters_remove_endpoints_and_routes() {
    let state = state();
    let midi_track_one = build(
        &state,
        &ConnectionFilters {
            audio: false,
            midi: true,
            tracks: TrackFilter::Selected(vec![TrackId::from_raw(1)]),
        },
    );
    assert!(all_endpoints(&midi_track_one).iter().all(|endpoint| endpoint.data_type == PortDataType::Midi));
    assert_eq!(midi_track_one.routes.len(), 1);
    let all_ids: Vec<EndpointId> = all_endpoints(&midi_track_one).into_iter().map(|endpoint| endpoint.id).collect();
    assert!(all_ids.contains(&EndpointId::Application(PortId::from_raw(12))));
    assert!(!all_ids.contains(&EndpointId::Application(PortId::from_raw(13))));

    let both_tracks = build(
        &state,
        &ConnectionFilters {
            audio: true,
            midi: true,
            tracks: TrackFilter::Selected(vec![TrackId::from_raw(1), TrackId::from_raw(2)]),
        },
    );
    let mut application_ids: Vec<PortId> = all_endpoints(&both_tracks)
        .into_iter()
        .filter_map(|endpoint| match endpoint.id {
            EndpointId::Application(id) => Some(id),
            EndpointId::Host(_) => None,
        })
        .collect();
    application_ids.sort_by_key(|id| id.raw());
    application_ids.dedup();
    assert_eq!(application_ids, vec![PortId::from_raw(11), PortId::from_raw(12), PortId::from_raw(13)]);
}

#[test]
fn system_and_application_groups_use_user_facing_names_and_stable_fallbacks() {
    let mut state = state();
    state.connections.host_ports = vec![
        host_port("plain-id", "plain", PortDataType::Audio, PortDirection::Output),
        host_port("z:port", "z:port", PortDataType::Audio, PortDirection::Output),
    ];
    let graph = build(&state, &ConnectionFilters::for_scope(ConnectionScope::AllTracks));
    assert_eq!(
        graph
            .column(GraphColumn::SystemSources)
            .iter()
            .map(|endpoint| endpoint.group.as_str())
            .collect::<Vec<_>>(),
        ["Other", "z"]
    );
    assert_eq!(graph.column(GraphColumn::ShoopSinks)[0].group, "One");
}

#[test]
fn selected_tracks_exclude_lua_ports_but_global_filter_groups_them_by_script() {
    let mut state = state();
    let script_id = ScriptId::from_raw(7);
    state.scripts = vec![NamedScript { id: script_id, name: "APC".to_owned() }];
    state.connections.application_ports.push(ApplicationPortState {
        id: PortId::from_raw(99),
        owner: ApplicationPortOwner::LuaControl { script_id, registration: 0 },
        name: "APC:midi_in".to_owned(),
        data_type: PortDataType::Midi,
        direction: PortDirection::Input,
        role: PortRole::MidiInput,
        connection_policy: ConnectionPolicy::OwnerManaged,
        capture_latency: LatencyObservationState::unknown(),
        playback_latency: LatencyObservationState::unknown(),
    });
    state.connections.confirmed_links.push(ConfirmedConnectionState {
        application_port_id: PortId::from_raw(99),
        host_port_id: HostPortId::new("orphan:midi_source"),
    });
    let global = build(&state, &ConnectionFilters::for_scope(ConnectionScope::AllTracks));
    assert!(global.column(GraphColumn::ShoopSinks).iter().any(|endpoint| endpoint.group == "Script: APC"));
    let managed_route = global
        .routes
        .iter()
        .find(|route| route.application_port_id == PortId::from_raw(99))
        .expect("Lua owner-managed route should remain visible");
    assert_eq!(managed_route.policy, ConnectionPolicy::OwnerManaged);
    assert_eq!(managed_route.state, GraphRouteState::Confirmed);
    assert!(!global.compatible_drop(&managed_route.source, &managed_route.sink));
    let selected = build(&state, &ConnectionFilters::for_scope(ConnectionScope::Track(TrackId::from_raw(1))));
    assert!(!all_endpoints(&selected)
        .iter()
        .any(|endpoint| endpoint.id == EndpointId::Application(PortId::from_raw(99))));
}

#[test]
fn duplicate_display_names_retain_distinct_stable_host_identities() {
    let mut state = state();
    state.connections.host_ports.extend([
        host_port("duplicate-id-1", "Duplicate Device:output", PortDataType::Audio, PortDirection::Output),
        host_port("duplicate-id-2", "Duplicate Device:output", PortDataType::Audio, PortDirection::Output),
    ]);
    let graph = build(&state, &ConnectionFilters::for_scope(ConnectionScope::AllTracks));
    let duplicates: Vec<_> = graph
        .column(GraphColumn::SystemSources)
        .iter()
        .filter(|endpoint| endpoint.full_name == "Duplicate Device:output")
        .map(|endpoint| endpoint.id.clone())
        .collect();
    assert_eq!(
        duplicates,
        [
            EndpointId::Host(HostPortId::new("duplicate-id-1")),
            EndpointId::Host(HostPortId::new("duplicate-id-2")),
        ]
    );
}

#[test]
fn compatibility_rejects_wrong_lanes_types_managed_and_existing_pairs() {
    let state = state();
    let mut graph = build(&state, &ConnectionFilters::for_scope(ConnectionScope::AllTracks));
    let host_source = EndpointId::Host(HostPortId::new("device:audio_source"));
    let app_sink = EndpointId::Application(PortId::from_raw(11));
    assert!(graph.compatible_drop(&host_source, &app_sink));
    assert!(!graph.compatible_drop(&app_sink, &host_source));
    assert!(!graph.compatible_drop(
        &EndpointId::Application(PortId::from_raw(12)),
        &EndpointId::Host(HostPortId::new("synth:midi_sink"))
    ));
    graph.shoop_sinks[0].policy = ConnectionPolicy::OwnerManaged;
    assert!(!graph.compatible_drop(&host_source, &app_sink));
}

#[test]
fn pending_disconnect_overrides_confirmed_and_errors_remain_visible() {
    let mut state = state();
    state.connections.pending_links = vec![PendingConnectionState {
        application_port_id: PortId::from_raw(12),
        host_port_id: HostPortId::new("synth:midi_sink"),
        desired_connected: false,
    }];
    state.connections.errors = vec![ConnectionErrorState {
        port_id: Some(PortId::from_raw(11)),
        external_port: Some("device:audio_source".to_owned()),
        kind: ConnectionErrorKind::BackendRejected,
        message: "rejected".to_owned(),
    }];
    let graph = build(&state, &ConnectionFilters::for_scope(ConnectionScope::AllTracks));
    assert!(graph.routes.iter().any(|route| route.state == GraphRouteState::PendingDisconnect));
    assert!(graph
        .routes
        .iter()
        .any(|route| route.state == GraphRouteState::Error && route.error.as_deref() == Some("rejected")));
}

#[test]
fn failed_route_can_be_retried_after_remaining_visible() {
    let mut state = state();
    state.connections.errors = vec![ConnectionErrorState {
        port_id: Some(PortId::from_raw(11)),
        external_port: Some("device:audio_source".to_owned()),
        kind: ConnectionErrorKind::BackendRejected,
        message: "try again".to_owned(),
    }];
    let graph = build(&state, &ConnectionFilters::for_scope(ConnectionScope::AllTracks));
    let source = EndpointId::Host(HostPortId::new("device:audio_source"));
    let sink = EndpointId::Application(PortId::from_raw(11));
    assert!(graph
        .routes
        .iter()
        .any(|route| route.source == source && route.sink == sink && route.state == GraphRouteState::Error));
    assert!(graph.compatible_drop(&source, &sink));
}

#[test]
fn open_always_applies_global_or_track_filter_presets() {
    let mut dialog = ConnectionDialog::new();
    dialog.set_data_type_filters(false, true);
    dialog.open(ConnectionScope::Track(TrackId::from_raw(2)));
    assert!(dialog.filters().audio && dialog.filters().midi);
    assert_eq!(dialog.filters().tracks, TrackFilter::Selected(vec![TrackId::from_raw(2)]));
    dialog.set_data_type_filters(true, false);
    dialog.open(ConnectionScope::AllTracks);
    assert_eq!(*dialog.filters(), ConnectionFilters::for_scope(ConnectionScope::AllTracks));
}

#[test]
fn name_splitting_matches_grouping_contract() {
    assert_eq!(external_name_parts("client:port:part"), ("client".to_owned(), "port:part".to_owned()));
    assert_eq!(external_name_parts("plain"), ("Other".to_owned(), "plain".to_owned()));
    assert_eq!(short_port_name("client:port"), "port");
}

use shoop_egui::connection::{route_click_intent, AppIntent};

#[test]
fn dragging_across_either_lane_emits_one_exact_connect_intent() {
    let state = state();
    let mut dialog = ConnectionDialog::new();
    dialog.open(ConnectionScope::AllTracks);
    let graph = build(&state, dialog.filters());
    let system_source = EndpointId::Host(HostPortId::new("device:audio_source"));
    let shoop_sink = EndpointId::Application(PortId::from_raw(11));
    dialog.begin_drag(&system_source, state.connections.revision);
    assert_eq!(
        dialog.release_drag(&graph, Some(&shoop_sink)),
        [AppIntent::SetPortConnected {
            port_id: PortId::from_raw(11),
            host_port_id: HostPortId::new("device:audio_source"),
            connected: true,
        }]
    );
    assert!(!dialog.is_dragging());
    let shoop_source = EndpointId::Application(PortId::from_raw(13));
    let system_sink = EndpointId::Host(HostPortId::new("speaker:audio_sink"));
    dialog.begin_drag(&shoop_source, state.connections.revision);
    assert_eq!(
        dialog.release_drag(&graph, Some(&system_sink)),
        [AppIntent::SetPortConnected {
            port_id: PortId::from_raw(13),
            host_port_id: HostPortId::new("speaker:audio_sink"),
            connected: true,
        }]
    );
}

#[test]
fn invalid_managed_and_pending_drops_emit_no_intents() {
    for mode in ["invalid", "managed", "pending"] {
        let mut state = state();
        if mode == "managed" {
            state.connections.application_ports[0].connection_policy = ConnectionPolicy::OwnerManaged;
        } else if mode == "pending" {
            state.connections.pending_links = vec![PendingConnectionState {
                application_port_id: PortId::from_raw(11),
                host_port_id: HostPortId::new("device:audio_source"),
                desired_connected: true,
            }];
        }
        let mut dialog = ConnectionDialog::new();
        dialog.open(ConnectionScope::AllTracks);
        let graph = build(&state, dialog.filters());
        let source_id = EndpointId::Host(HostPortId::new("device:audio_source"));
        let sink_id = if mode == "invalid" {
            EndpointId::Host(HostPortId::new("speaker:audio_sink"))
        } else {
            EndpointId::Application(PortId::from_raw(11))
        };
        dialog.begin_drag(&source_id, state.connections.revision);
        assert!(dialog.release_drag(&graph, Some(&sink_id)).is_empty());
        dialog.begin_drag(&source_id, state.connections.revision);
        assert!(dialog.release_drag(&graph, None).is_empty());
    }
}

#[test]
fn clicking_confirmed_user_managed_curve_emits_exact_disconnect() {
    let state = state();
    let graph = build(&state, &ConnectionFilters::for_scope(ConnectionScope::AllTracks));
    assert_eq!(
        route_click_intent(&graph.routes[0], false),
        Some(AppIntent::SetPortConnected {
            port_id: PortId::from_raw(12),
            host_port_id: HostPortId::new("synth:midi_sink"),
            connected: false,
        })
    );
    assert_eq!(route_click_intent(&graph.routes[0], true), None);
}

#[test]
fn managed_and_pending_curves_cannot_be_disconnected() {
    for mode in ["managed", "pending"] {
        let mut state = state();
        if mode == "managed" {
            state.connections.application_ports[1].connection_policy = ConnectionPolicy::OwnerManaged;
        } else {
            state.connections.pending_links = vec![PendingConnectionState {
                application_port_id: PortId::from_raw(12),
                host_port_id: HostPortId::new("synth:midi_sink"),
                desired_connected: false,
            }];
        }
        let graph = build(&state, &ConnectionFilters::for_scope(ConnectionScope::AllTracks));
        assert_eq!(graph.routes.len(), 1);
        assert_eq!(route_click_intent(&graph.routes[0], false), None);
    }
}

#[test]
fn filter_or_snapshot_change_cancels_an_active_drag() {
    let state = state();
    let mut dialog = ConnectionDialog::new();
    dialog.open(ConnectionScope::AllTracks);
    let source_id = EndpointId::Host(HostPortId::new("device:audio_source"));
    dialog.begin_drag(&source_id, state.connections.revision);
    dialog.drop_stale_drag(state.connections.revision);
    assert!(dialog.is_dragging());
    dialog.set_data_type_filters(false, true);
    dialog.drop_stale_drag(state.connections.revision);
    assert!(!dialog.is_dragging());
    dialog.set_data_type_filters(true, true);
    dialog.begin_drag(&source_id, state.connections.revision);
    assert!(dialog.is_dragging());
    dialog.drop_stale_drag(state.connections.revision + 1);
    assert!(!dialog.is_dragging());
}

#[test]
fn stale_track_warning_does_not_block_switching_back_to_all_tracks() {
    let state = state();
    let mut dialog = ConnectionDialog::new();
    dialog.open(ConnectionScope::Track(TrackId::from_raw(999)));
    let stale = build(&state, dialog.filters());
    assert!(stale.shoop_sinks.is_empty() && stale.shoop_sources.is_empty());
    dialog.show_all_tracks();
    let recovered = build(&state, dialog.filters());
    assert_eq!(recovered.shoop_sinks.len() + recovered.shoop_sources.len(), 3);
}

#[test]
fn empty_host_inventory_keeps_application_ports_visible() {
    let mut state = state();
    state.connections.host_ports = Vec::new();
    state.connections.confirmed_links = Vec::new();
    let graph = build(&state, &ConnectionFilters::for_scope(ConnectionScope::AllTracks));
    assert_eq!(all_endpoints(&graph).len(), 3);
    assert!(graph.routes.is_empty());
}

use shoop_egui::connection::{
    adjacent_columns, application_group_label, data_type_glyph, endpoint_hover, latest_error,
    route_hover, GraphRoute,
};

#[test]
fn hover_texts_describe_endpoints_and_routes() {
    let state = state();
    let graph = build(&state, &ConnectionFilters::for_scope(ConnectionScope::AllTracks));
    let source = &graph.column(GraphColumn::SystemSources)[0];
    assert_eq!(endpoint_hover(source, true), "device:audio_source\nAudio source\nDrag to a compatible sink to connect");
    assert_eq!(endpoint_hover(source, false), "device:audio_source\nAudio sink");
    let mut managed = source.clone();
    managed.policy = ConnectionPolicy::OwnerManaged;
    managed.pending = true;
    managed.error = Some("boom".to_owned());
    assert_eq!(
        endpoint_hover(&managed, true),
        "device:audio_source\nAudio source\nConnections are managed by the port owner\nA connection change is pending\nboom"
    );
    let route: &GraphRoute = &graph.routes[0];
    assert_eq!(route_hover(route), "Connected; click the line to disconnect");
    let mut failed = route.clone();
    failed.state = GraphRouteState::Error;
    failed.error = None;
    assert_eq!(route_hover(&failed), "Connection failed");
    failed.state = GraphRouteState::PendingConnect;
    assert_eq!(route_hover(&failed), "Connecting…");
    failed.state = GraphRouteState::Confirmed;
    failed.policy = ConnectionPolicy::OwnerManaged;
    assert_eq!(route_hover(&failed), "Connected; managed by the port owner");
}

#[test]
fn group_labels_fall_back_to_numbered_owners() {
    let tracks = vec![NamedTrack { id: TrackId::from_raw(1), name: "One".to_owned() }];
    let scripts = vec![NamedScript { id: ScriptId::from_raw(7), name: "APC".to_owned() }];
    let track = |id| ApplicationPortOwner::Track { track_id: TrackId::from_raw(id), kind: TrackPortOwnerKind::Main };
    let script = |id| ApplicationPortOwner::LuaControl { script_id: ScriptId::from_raw(id), registration: 0 };
    assert_eq!(application_group_label(&track(1), &tracks, &scripts), "One");
    assert_eq!(application_group_label(&track(4), &tracks, &scripts), "Track 4");
    assert_eq!(application_group_label(&script(7), &tracks, &scripts), "Script: APC");
    assert_eq!(application_group_label(&script(8), &tracks, &scripts), "Script 8");
}

#[test]
fn the_latest_matching_error_is_reported() {
    let mut state = state();
    let error = |port: u64, external: Option<&str>, message: &str| ConnectionErrorState {
        port_id: Some(PortId::from_raw(port)),
        external_port: external.map(str::to_owned),
        kind: ConnectionErrorKind::BackendRejected,
        message: message.to_owned(),
    };
    state.connections.errors = vec![
        error(11, Some("a"), "first"),
        error(11, Some("b"), "second"),
        error(12, Some("a"), "other port"),
    ];
    assert_eq!(latest_error(&state.connections, PortId::from_raw(11), None), Some("second".to_owned()));
    assert_eq!(
        latest_error(&state.connections, PortId::from_raw(11), Some(&HostPortId::new("a"))),
        Some("first".to_owned())
    );
    assert_eq!(latest_error(&state.connections, PortId::from_raw(13), None), None);
}

#[test]
fn columns_pair_sources_with_the_adjacent_sinks() {
    assert!(adjacent_columns(GraphColumn::SystemSources, GraphColumn::ShoopSinks));
    assert!(adjacent_columns(GraphColumn::ShoopSources, GraphColumn::SystemSinks));
    assert!(!adjacent_columns(GraphColumn::SystemSources, GraphColumn::SystemSinks));
    assert!(!adjacent_columns(GraphColumn::ShoopSinks, GraphColumn::SystemSources));
    assert!(GraphColumn::SystemSources.is_source() && !GraphColumn::ShoopSinks.is_source());
    assert_eq!(data_type_glyph(PortDataType::Audio), "A");
    assert_eq!(data_type_glyph(PortDataType::Midi), "M");
}
