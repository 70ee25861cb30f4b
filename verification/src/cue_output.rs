//! The cue output of a track: the outputs the latency panel offers and the label of the choice.
use vstd::prelude::*;

use crate::ids::{HostPortId, PortId, TrackId};
use crate::latency::{CueOutputSelection, LatencyPanelContext};
use crate::ports::{
    first_application_port, first_host_port, find_application_port, find_host_port,
    ApplicationPortOwner, ApplicationPortState, ConfirmedConnectionState, ConnectionViewState,
    HostPortState, PortDirection,
};
use crate::text::{decimal, u64_text};

verus! {

/// The port inventory of the running backend, if there is one.
pub open spec fn inventory(runtime: Option<&LatencyPanelContext<'_>>) -> Option<ConnectionViewState> {
    match runtime {
        Some(rt) => Some(*rt.connections),
        None => None,
    }
}

pub open spec fn selected(selection: Option<&CueOutputSelection>) -> Option<CueOutputSelection> {
    match selection {
        Some(s) => Some(*s),
        None => None,
    }
}

/// The label of a cue output choice: the port's name, or, when the port is not in the
/// inventory, that it is missing.
pub open spec fn cue_selection_text(
    selection: Option<CueOutputSelection>,
    connections: Option<ConnectionViewState>,
) -> Seq<char> {
    match selection {
        None => "No selected cue output"@,
        Some(CueOutputSelection::ApplicationPort(id)) => {
            let missing = "Missing application port "@ + decimal(id.0 as nat);
            match connections {
                Some(c) => match first_application_port(c.application_ports@, id) {
                    Some(i) => "Application: "@ + c.application_ports@[i].name@,
                    None => missing,
                },
                None => missing,
            }
        },
        Some(CueOutputSelection::HostPort(id)) => {
            let missing = "Missing host port "@ + id.0@;
            match connections {
                Some(c) => match first_host_port(c.host_ports@, id.0@) {
                    Some(i) => "Host: "@ + c.host_ports@[i].name@,
                    None => missing,
                },
                None => missing,
            }
        },
    }
}

/// The text that the cue output selector shows for the current choice.
pub fn cue_selection_label(
    selection: Option<&CueOutputSelection>,
    runtime: Option<&LatencyPanelContext<'_>>,
) -> (r: String)
    ensures
        r@ == cue_selection_text(selected(selection), inventory(runtime)),
{
    match selection {
        None => "No selected cue output".to_string(),
        Some(CueOutputSelection::ApplicationPort(id)) => {
            let found = match runtime {
                Some(rt) => find_application_port(rt.connections, *id),
                None => None,
            };
            match found {
                Some(port) => {
                    let mut text = "Application: ".to_string();
                    text.append(port.name.as_str());
                    text
                },
                None => {
                    let mut text = "Missing application port ".to_string();
                    let number = u64_text(id.raw());
                    text.append(number.as_str());
                    text
                },
            }
        },
        Some(CueOutputSelection::HostPort(id)) => {
            let found = match runtime {
                Some(rt) => find_host_port(rt.connections, id),
                None => None,
            };
            match found {
                Some(port) => {
                    let mut text = "Host: ".to_string();
                    text.append(port.name.as_str());
                    text
                },
                None => {
                    let mut text = "Missing host port ".to_string();
                    text.append(id.as_str());
                    text
                },
            }
        },
    }
}

/// One entry of the cue output selector: what choosing it selects, and its text.
#[derive(Clone, Debug)]
pub struct CueChoice {
    pub selection: Option<CueOutputSelection>,
    pub label: String,
}

pub open spec fn choice_view(choice: CueChoice) -> (Option<CueOutputSelection>, Seq<char>) {
    (choice.selection, choice.label@)
}

pub open spec fn choices_view(choices: Seq<CueChoice>) -> Seq<(Option<CueOutputSelection>, Seq<char>)> {
    choices.map_values(|c: CueChoice| choice_view(c))
}

/// The name under which a linked host port is offered: its name, else its identity.
pub open spec fn host_label(hosts: Seq<HostPortState>, id: HostPortId) -> Seq<char> {
    match first_host_port(hosts, id.0@) {
        Some(i) => hosts[i].name@,
        None => id.0@,
    }
}

/// The host ports confirmed linked to `port`, in link order.
pub open spec fn link_choices(
    links: Seq<ConfirmedConnectionState>,
    port: PortId,
    hosts: Seq<HostPortState>,
) -> Seq<(Option<CueOutputSelection>, Seq<char>)>
    decreases links.len(),
{
    if links.len() == 0 {
        Seq::empty()
    } else {
        let link = links.last();
        link_choices(links.drop_last(), port, hosts) + if link.application_port_id == port {
            seq![
                (
                    Some(CueOutputSelection::HostPort(link.host_port_id)),
                    "Host: "@ + host_label(hosts, link.host_port_id),
                ),
            ]
        } else {
            Seq::empty()
        }
    }
}

/// An output port of the track can carry its cue.
pub open spec fn cue_candidate(port: ApplicationPortState, track: TrackId) -> bool {
    &&& port.direction == PortDirection::Output
    &&& port.owner matches ApplicationPortOwner::Track { track_id, .. } && track_id == track
}

/// Each output port of the track, followed by the host ports linked to it.
pub open spec fn port_choices(
    ports: Seq<ApplicationPortState>,
    track: TrackId,
    connections: ConnectionViewState,
) -> Seq<(Option<CueOutputSelection>, Seq<char>)>
    decreases ports.len(),
{
    if ports.len() == 0 {
        Seq::empty()
    } else {
        let port = ports.last();
        port_choices(ports.drop_last(), track, connections) + if cue_candidate(port, track) {
            seq![(Some(CueOutputSelection::ApplicationPort(port.id)), "Application: "@ + port.name@)]
                + link_choices(connections.confirmed_links@, port.id, connections.host_ports@)
        } else {
            Seq::empty()
        }
    }
}

/// The entries of the cue output selector: no cue output, then, when the backend's inventory is
/// known, the track's output ports and the host ports linked to each.
pub open spec fn cue_choices(track: TrackId, connections: Option<ConnectionViewState>) -> Seq<
    (Option<CueOutputSelection>, Seq<char>),
> {
    seq![(None::<CueOutputSelection>, "No selected cue output"@)] + match connections {
        Some(c) => port_choices(c.application_ports@, track, c),
        None => Seq::empty(),
    }
}

fn push_link_choices(
    connections: &ConnectionViewState,
    port: PortId,
    out: &mut Vec<CueChoice>,
)
    ensures
        choices_view(final(out)@) == choices_view(old(out)@) + link_choices(
            connections.confirmed_links@,
            port,
            connections.host_ports@,
        ),
{
    let mut j: usize = 0;
    while j < connections.confirmed_links.len()
        invariant
            j <= connections.confirmed_links@.len(),
            choices_view(out@) == choices_view(old(out)@) + link_choices(
                connections.confirmed_links@.take(j as int),
                port,
                connections.host_ports@,
            ),
        decreases connections.confirmed_links@.len() - j,
    {
        proof {
            assert(connections.confirmed_links@.take(j as int + 1).drop_last()
                =~= connections.confirmed_links@.take(j as int));
        }
        let link = &connections.confirmed_links[j];
        let ghost before = out@;
        if link.application_port_id == port {
            let mut label = "Host: ".to_string();
            match find_host_port(connections, &link.host_port_id) {
                Some(host) => label.append(host.name.as_str()),
                None => label.append(link.host_port_id.as_str()),
            }
            out.push(
                CueChoice {
                    selection: Some(CueOutputSelection::HostPort(link.host_port_id.duplicate())),
                    label,
                },
            );
            proof {
                assert(choices_view(out@) =~= choices_view(before).push(choice_view(out@.last())));
            }
        }
        j = j + 1;
        proof {
            assert(choices_view(out@) =~= choices_view(old(out)@) + link_choices(
                connections.confirmed_links@.take(j as int),
                port,
                connections.host_ports@,
            ));
        }
    }
    proof {
        assert(connections.confirmed_links@.take(j as int) =~= connections.confirmed_links@);
    }
}

/// The entries that the cue output selector of a track offers (see `cue_choices`).
pub fn cue_output_choices(track_id: TrackId, runtime: Option<&LatencyPanelContext<'_>>) -> (r: Vec<
    CueChoice,
>)
    ensures
        choices_view(r@) == cue_choices(track_id, inventory(runtime)),
{
    let mut out: Vec<CueChoice> = Vec::new();
    out.push(CueChoice { selection: None, label: "No selected cue output".to_string() });
    proof {
        assert(choices_view(out@) =~= seq![(None::<CueOutputSelection>, "No selected cue output"@)]);
    }
    match runtime {
        None => {
            proof {
                assert(choices_view(out@) =~= cue_choices(track_id, inventory(runtime)));
            }
        },
        Some(rt) => {
            let connections = rt.connections;
            let ghost start = out@;
            let mut i: usize = 0;
            while i < connections.application_ports.len()
                invariant
                    i <= connections.application_ports@.len(),
                    choices_view(out@) == choices_view(start) + port_choices(
                        connections.application_ports@.take(i as int),
                        track_id,
                        *connections,
                    ),
                decreases connections.application_ports@.len() - i,
            {
                proof {
                    assert(connections.application_ports@.take(i as int + 1).drop_last()
                        =~= connections.application_ports@.take(i as int));
                }
                let port = &connections.application_ports[i];
                let ghost before = out@;
                let owned = match port.owner {
                    ApplicationPortOwner::Track { track_id: owner, .. } => owner == track_id,
                    _ => false,
                };
                if port.direction == PortDirection::Output && owned {
                    let mut label = "Application: ".to_string();
                    label.append(port.name.as_str());
                    out.push(
                        CueChoice {
                            selection: Some(CueOutputSelection::ApplicationPort(port.id)),
                            label,
                        },
                    );
                    proof {
                        assert(choices_view(out@) =~= choices_view(before).push(
                            choice_view(out@.last()),
                        ));
                    }
                    push_link_choices(connections, port.id, &mut out);
                }
                i = i + 1;
                proof {
                    assert(choices_view(out@) =~= choices_view(start) + port_choices(
                        connections.application_ports@.take(i as int),
                        track_id,
                        *connections,
                    ));
                }
            }
            proof {
                assert(connections.application_ports@.take(i as int) =~= connections.application_ports@);
                assert(choices_view(out@) =~= cue_choices(track_id, inventory(runtime)));
            }
        },
    }
    out
}

} // verus!
