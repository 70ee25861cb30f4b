//! Building the connection graph from the port and link state.

use vstd::prelude::*;

use crate::connection::{
    application_group_label, column_endpoints, endpoint_less, error_message_at, external_name_parts,
    latest_error, latest_error_index, latest_host_error, latest_host_error_index,
    same_endpoint, short_port_name, spec_external_name_parts, spec_group_label,
    spec_includes_owner, spec_includes_type, spec_short_port_name, text_view, ConnectionFilters,
    ConnectionGraph, EndpointId, GraphColumn, GraphEndpoint, GraphRoute, GraphRouteState,
    NamedScript, NamedTrack,
};
use crate::ids::{HostPortId, PortId};
use crate::ports::{
    find_application_port, find_host_port, first_application_port, first_host_port,
    ApplicationPortState, ConnectionPolicy, ConnectionViewState, HostPortState, PortDirection,
};
use crate::text::{
    compare_text, lemma_text_less_irreflexive, lemma_text_less_total, lemma_text_less_transitive,
    text_less, TextOrder,
};

verus! {

/// Endpoints are laid out by group, then label, then identity.
pub open spec fn endpoint_key_less(x: GraphEndpoint, y: GraphEndpoint) -> bool {
    text_less(x.group@, y.group@) || (x.group@ == y.group@ && (text_less(x.label@, y.label@)
        || (x.label@ == y.label@ && endpoint_less(x.id, y.id))))
}

/// Two endpoints have the same layout key.
pub open spec fn endpoint_key_equal(x: GraphEndpoint, y: GraphEndpoint) -> bool {
    x.group@ == y.group@ && x.label@ == y.label@ && same_endpoint(x.id, y.id)
}

/// Layout order of entries `a` and `b` of `items`; entries with equal keys keep their order.
pub open spec fn endpoint_order_less(items: Seq<GraphEndpoint>, a: int, b: int) -> bool {
    endpoint_key_less(items[a], items[b]) || (endpoint_key_equal(items[a], items[b]) && a < b)
}

/// `result` is `items` in layout order.
pub open spec fn is_endpoint_layout(items: Seq<GraphEndpoint>, result: Seq<GraphEndpoint>) -> bool {
    exists|order: Seq<usize>| #[trigger] lays_out_endpoints(items, order, result)
}

/// `order` lists every index of `items` once, in layout order, and `result` takes them in that order.
pub open spec fn lays_out_endpoints(items: Seq<GraphEndpoint>, order: Seq<usize>, result: Seq<GraphEndpoint>) -> bool {
    &&& order.len() == items.len()
    &&& forall|i: int| 0 <= i < items.len() ==> #[trigger] order.contains(i as usize)
    &&& forall|k: int| 0 <= k < order.len() ==> order[k] < items.len()
    &&& forall|a: int, b: int| 0 <= a < b < order.len() ==> endpoint_order_less(items, order[a] as int, order[b] as int)
    &&& result.len() == order.len()
    &&& forall|k: int| 0 <= k < order.len() ==> result[k] == items[order[k] as int]
}

proof fn lemma_endpoint_less_transitive(a: EndpointId, b: EndpointId, c: EndpointId)
    requires
        endpoint_less(a, b),
        endpoint_less(b, c),
    ensures
        endpoint_less(a, c),
{
    match (a, b, c) {
        (EndpointId::Host(x), EndpointId::Host(y), EndpointId::Host(z)) => {
            lemma_text_less_transitive(x.0@, y.0@, z.0@);
        },
        _ => {},
    }
}

proof fn lemma_endpoint_less_total(a: EndpointId, b: EndpointId)
    ensures
        same_endpoint(a, b) || endpoint_less(a, b) || endpoint_less(b, a),
        !(endpoint_less(a, b) && endpoint_less(b, a)),
        same_endpoint(a, b) ==> !endpoint_less(a, b) && !endpoint_less(b, a),
{
    match (a, b) {
        (EndpointId::Host(x), EndpointId::Host(y)) => {
            lemma_text_less_total(x.0@, y.0@);
            lemma_text_less_total(y.0@, x.0@);
        },
        _ => {},
    }
}

proof fn lemma_same_endpoint_transitive(a: EndpointId, b: EndpointId, c: EndpointId)
    requires
        same_endpoint(a, b),
    ensures
        same_endpoint(b, c) ==> same_endpoint(a, c),
        same_endpoint(a, c) ==> same_endpoint(b, c),
        endpoint_less(a, c) == endpoint_less(b, c),
        endpoint_less(c, a) == endpoint_less(c, b),
{
}

proof fn lemma_endpoint_order_transitive(items: Seq<GraphEndpoint>, a: int, b: int, c: int)
    requires
        endpoint_order_less(items, a, b),
        endpoint_order_less(items, b, c),
    ensures
        endpoint_order_less(items, a, c),
{
    let x = items[a];
    let y = items[b];
    let z = items[c];
    lemma_text_less_total(x.group@, y.group@);
    lemma_text_less_total(y.group@, z.group@);
    lemma_text_less_total(x.group@, z.group@);
    lemma_text_less_total(x.label@, y.label@);
    lemma_text_less_total(y.label@, z.label@);
    lemma_text_less_total(x.label@, z.label@);
    lemma_endpoint_less_total(x.id, y.id);
    lemma_endpoint_less_total(y.id, z.id);
    lemma_endpoint_less_total(x.id, z.id);
    if text_less(x.group@, y.group@) && text_less(y.group@, z.group@) {
        lemma_text_less_transitive(x.group@, y.group@, z.group@);
    }
    if x.group@ == y.group@ && y.group@ == z.group@ {
        if text_less(x.label@, y.label@) && text_less(y.label@, z.label@) {
            lemma_text_less_transitive(x.label@, y.label@, z.label@);
        }
        if x.label@ == y.label@ && y.label@ == z.label@ {
            if endpoint_less(x.id, y.id) && endpoint_less(y.id, z.id) {
                lemma_endpoint_less_transitive(x.id, y.id, z.id);
            }
            if same_endpoint(x.id, y.id) {
                lemma_same_endpoint_transitive(x.id, y.id, z.id);
            }
            if same_endpoint(y.id, z.id) {
                lemma_same_endpoint_transitive(z.id, y.id, x.id);
            }
        }
    }
}

proof fn lemma_endpoint_order_total(items: Seq<GraphEndpoint>, a: int, b: int)
    requires
        a != b,
    ensures
        endpoint_order_less(items, a, b) || endpoint_order_less(items, b, a),
{
    let x = items[a];
    let y = items[b];
    lemma_text_less_total(x.group@, y.group@);
    lemma_text_less_total(x.label@, y.label@);
    lemma_endpoint_less_total(x.id, y.id);
}

/// How entries `a` and `b` of `items` compare in layout order.
fn endpoint_order_less_exec(items: &Vec<GraphEndpoint>, a: usize, b: usize) -> (r: bool)
    requires
        a < items@.len(),
        b < items@.len(),
    ensures
        r == endpoint_order_less(items@, a as int, b as int),
{
    let x = &items[a];
    let y = &items[b];
    proof {
        lemma_text_less_total(x.group@, y.group@);
        lemma_text_less_total(x.label@, y.label@);
        lemma_endpoint_less_total(x.id, y.id);
    }
    match compare_text(x.group.as_str(), y.group.as_str()) {
        TextOrder::Less => true,
        TextOrder::Greater => false,
        TextOrder::Equal => match compare_text(x.label.as_str(), y.label.as_str()) {
            TextOrder::Less => true,
            TextOrder::Greater => false,
            TextOrder::Equal => match x.id.compare(&y.id) {
                TextOrder::Less => true,
                TextOrder::Greater => false,
                TextOrder::Equal => a < b,
            },
        },
    }
}

impl GraphEndpoint {
    /// A copy of this endpoint.
    pub fn duplicate(&self) -> (r: Self)
        ensures
            r == *self,
    {
        GraphEndpoint {
            id: self.id.duplicate(),
            column: self.column,
            group: self.group.clone(),
            label: self.label.clone(),
            full_name: self.full_name.clone(),
            data_type: self.data_type,
            policy: self.policy,
            pending: self.pending,
            error: match &self.error {
                Some(e) => Some(e.clone()),
                None => None,
            },
        }
    }
}

/// The endpoints in layout order; equal keys keep their order.
fn lay_out_endpoints(items: &Vec<GraphEndpoint>) -> (r: Vec<GraphEndpoint>)
    ensures
        is_endpoint_layout(items@, r@),
{
    let n = items.len();
    let mut order: Vec<usize> = Vec::new();
    let mut i: usize = 0;
    while i < n
        invariant
            n == items@.len(),
            i <= n,
            order@.len() == i,
            forall|x: int| 0 <= x < i ==> #[trigger] order@.contains(x as usize),
            forall|k: int| 0 <= k < order@.len() ==> order@[k] < i,
            forall|a: int, b: int| 0 <= a < b < order@.len() ==> endpoint_order_less(items@, order@[a] as int, order@[b] as int),
        decreases n - i,
    {
        let mut pos: usize = 0;
        while pos < order.len() && !endpoint_order_less_exec(items, i, order[pos])
            invariant
                pos <= order@.len(),
                i < n,
                n == items@.len(),
                forall|k: int| 0 <= k < order@.len() ==> order@[k] < i,
                forall|k: int| 0 <= k < pos ==> !endpoint_order_less(items@, i as int, order@[k] as int),
            decreases order@.len() - pos,
        {
            pos = pos + 1;
        }
        let ghost old_order = order@;
        order.insert(pos, i);
        proof {
            assert(order@ == old_order.insert(pos as int, i));
            assert forall|a: int, b: int| 0 <= a < b < order@.len() implies endpoint_order_less(items@, order@[a] as int, order@[b] as int) by {
                if a < pos && b == pos {
                    assert(!endpoint_order_less(items@, i as int, old_order[a] as int));
                    lemma_endpoint_order_total(items@, i as int, old_order[a] as int);
                } else if a == pos && b > pos {
                    assert(endpoint_order_less(items@, i as int, old_order[pos as int] as int));
                    if b - 1 > pos {
                        assert(endpoint_order_less(items@, old_order[pos as int] as int, old_order[b - 1] as int));
                        lemma_endpoint_order_transitive(items@, i as int, old_order[pos as int] as int, old_order[b - 1] as int);
                    }
                } else if a < pos && b > pos {
                    assert(endpoint_order_less(items@, old_order[a] as int, old_order[b - 1] as int));
                } else if a > pos {
                    assert(endpoint_order_less(items@, old_order[a - 1] as int, old_order[b - 1] as int));
                } else {
                    assert(endpoint_order_less(items@, old_order[a] as int, old_order[b] as int));
                }
            }
            assert forall|x: int| 0 <= x < i + 1 implies #[trigger] order@.contains(x as usize) by {
                if x == i {
                    assert(order@[pos as int] == i);
                } else {
                    assert(old_order.contains(x as usize));
                    let k = choose|k: int| 0 <= k < old_order.len() && old_order[k] == x as usize;
                    if k < pos {
                        assert(order@[k] == x as usize);
                    } else {
                        assert(order@[k + 1] == x as usize);
                    }
                }
            }
            assert forall|k: int| 0 <= k < order@.len() implies order@[k] < i + 1 by {
                if k < pos {
                    assert(order@[k] == old_order[k]);
                } else if k > pos {
                    assert(order@[k] == old_order[k - 1]);
                }
            }
        }
        i = i + 1;
    }
    let mut result: Vec<GraphEndpoint> = Vec::new();
    let mut k: usize = 0;
    while k < n
        invariant
            n == items@.len(),
            order@.len() == n,
            k <= n,
            forall|m: int| 0 <= m < order@.len() ==> order@[m] < n,
            result@.len() == k,
            forall|m: int| 0 <= m < k ==> result@[m] == items@[order@[m] as int],
        decreases n - k,
    {
        result.push(items[order[k]].duplicate());
        k = k + 1;
    }
    proof {
        assert(lays_out_endpoints(items@, order@, result@));
    }
    result
}

} // verus!

verus! {

/// The filters show this application port.
pub open spec fn port_visible(filters: ConnectionFilters, port: ApplicationPortState) -> bool {
    spec_includes_type(filters, port.data_type) && spec_includes_owner(filters, port.owner)
}

/// The column of an application port: inputs are sinks, outputs are sources.
pub open spec fn app_column(direction: PortDirection) -> GraphColumn {
    match direction {
        PortDirection::Input => GraphColumn::ShoopSinks,
        PortDirection::Output => GraphColumn::ShoopSources,
    }
}

/// The column of a host port: host outputs are sources, host inputs are sinks.
pub open spec fn host_column(direction: PortDirection) -> GraphColumn {
    match direction {
        PortDirection::Output => GraphColumn::SystemSources,
        PortDirection::Input => GraphColumn::SystemSinks,
    }
}

/// The first application port with identity `id` could be linked to host port `host`:
/// same data type, opposite direction.
pub open spec fn first_port_fits_host(ports: Seq<ApplicationPortState>, id: PortId, host: HostPortState) -> bool {
    match first_application_port(ports, id) {
        Some(j) => ports[j].data_type == host.data_type && ports[j].direction != host.direction,
        None => false,
    }
}

/// The graph shows host port `host`: the filters keep its data type and some shown application
/// port could be linked to it.
pub open spec fn host_visible(state: ConnectionViewState, filters: ConnectionFilters, host: HostPortState) -> bool {
    &&& spec_includes_type(filters, host.data_type)
    &&& exists|i: int| 0 <= i < state.application_ports@.len() && port_visible(filters, state.application_ports@[i])
        && #[trigger] first_port_fits_host(state.application_ports@, state.application_ports@[i].id, host)
}

/// A link change is pending on application port `id`.
pub open spec fn pending_on_port(state: ConnectionViewState, id: PortId) -> bool {
    exists|i: int| 0 <= i < state.pending_links@.len() && (#[trigger] state.pending_links@[i]).application_port_id == id
}

/// A link change is pending on host port `host`.
pub open spec fn pending_on_host(state: ConnectionViewState, host: Seq<char>) -> bool {
    exists|i: int| 0 <= i < state.pending_links@.len() && (#[trigger] state.pending_links@[i]).host_port_id.0@ == host
}

/// `e` shows application port `p`.
pub open spec fn describes_app_port(state: ConnectionViewState, tracks: Seq<NamedTrack>, scripts: Seq<NamedScript>,
    p: ApplicationPortState, e: GraphEndpoint) -> bool {
    &&& e.id == EndpointId::Application(p.id)
    &&& e.column == app_column(p.direction)
    &&& e.group@ == spec_group_label(p.owner, tracks, scripts)
    &&& e.label@ == spec_short_port_name(p.name@)
    &&& e.full_name@ == p.name@
    &&& e.data_type == p.data_type
    &&& e.policy == p.connection_policy
    &&& e.pending == pending_on_port(state, p.id)
    &&& text_view(e.error) == error_message_at(state.errors@,
        latest_error_index(state.errors@, p.id, None, state.errors@.len() as int))
}

/// `e` shows host port `h`.
pub open spec fn describes_host_port(state: ConnectionViewState, h: HostPortState, e: GraphEndpoint) -> bool {
    &&& e.id is Host
    &&& e.id->Host_0.0@ == h.id.0@
    &&& e.column == host_column(h.direction)
    &&& (e.group@, e.label@) == spec_external_name_parts(h.name@)
    &&& e.full_name@ == h.name@
    &&& e.data_type == h.data_type
    &&& e.policy == ConnectionPolicy::UserManaged
    &&& e.pending == pending_on_host(state, h.id.0@)
    &&& text_view(e.error) == error_message_at(state.errors@,
        latest_host_error_index(state.errors@, h.id.0@, state.errors@.len() as int))
}

/// The application ports that a column shows, in port order.
pub open spec fn column_app_ports(state: ConnectionViewState, filters: ConnectionFilters, column: GraphColumn) -> Seq<ApplicationPortState> {
    state.application_ports@.filter(|p: ApplicationPortState| port_visible(filters, p) && app_column(p.direction) == column)
}

/// The host ports that a column shows, in port order.
pub open spec fn column_host_ports(state: ConnectionViewState, filters: ConnectionFilters, column: GraphColumn) -> Seq<HostPortState> {
    state.host_ports@.filter(|h: HostPortState| host_visible(state, filters, h) && host_column(h.direction) == column)
}

/// `result` shows the application ports of `column` in layout order.
pub open spec fn app_column_built(state: ConnectionViewState, tracks: Seq<NamedTrack>, scripts: Seq<NamedScript>,
    filters: ConnectionFilters, column: GraphColumn, result: Seq<GraphEndpoint>) -> bool {
    let ports = column_app_ports(state, filters, column);
    exists|items: Seq<GraphEndpoint>| #[trigger] items.len() == ports.len()
        && (forall|k: int| 0 <= k < ports.len() ==> describes_app_port(state, tracks, scripts, ports[k], #[trigger] items[k]))
        && is_endpoint_layout(items, result)
}

/// `result` shows the host ports of `column` in layout order.
pub open spec fn host_column_built(state: ConnectionViewState, filters: ConnectionFilters, column: GraphColumn,
    result: Seq<GraphEndpoint>) -> bool {
    let hosts = column_host_ports(state, filters, column);
    exists|items: Seq<GraphEndpoint>| #[trigger] items.len() == hosts.len()
        && (forall|k: int| 0 <= k < hosts.len() ==> describes_host_port(state, hosts[k], #[trigger] items[k]))
        && is_endpoint_layout(items, result)
}

fn port_visible_exec(filters: &ConnectionFilters, port: &ApplicationPortState) -> (r: bool)
    ensures
        r == port_visible(*filters, *port),
{
    filters.includes_type(port.data_type) && filters.includes_owner(&port.owner)
}

fn pending_on_port_exec(state: &ConnectionViewState, id: PortId) -> (r: bool)
    ensures
        r == pending_on_port(*state, id),
{
    let mut i: usize = 0;
    while i < state.pending_links.len()
        invariant
            i <= state.pending_links@.len(),
            forall|k: int| 0 <= k < i ==> (#[trigger] state.pending_links@[k]).application_port_id != id,
        decreases state.pending_links@.len() - i,
    {
        if state.pending_links[i].application_port_id == id {
            return true;
        }
        i = i + 1;
    }
    false
}

fn pending_on_host_exec(state: &ConnectionViewState, host: &HostPortId) -> (r: bool)
    ensures
        r == pending_on_host(*state, host.0@),
{
    let mut i: usize = 0;
    while i < state.pending_links.len()
        invariant
            i <= state.pending_links@.len(),
            forall|k: int| 0 <= k < i ==> (#[trigger] state.pending_links@[k]).host_port_id.0@ != host.0@,
        decreases state.pending_links@.len() - i,
    {
        if state.pending_links[i].host_port_id.same_as(host) {
            return true;
        }
        i = i + 1;
    }
    false
}

fn host_visible_exec(state: &ConnectionViewState, filters: &ConnectionFilters, host: &HostPortState) -> (r: bool)
    ensures
        r == host_visible(*state, *filters, *host),
{
    if !filters.includes_type(host.data_type) {
        return false;
    }
    let mut i: usize = 0;
    while i < state.application_ports.len()
        invariant
            i <= state.application_ports@.len(),
            spec_includes_type(*filters, host.data_type),
            forall|k: int| 0 <= k < i ==> !(port_visible(*filters, state.application_ports@[k])
                && #[trigger] first_port_fits_host(state.application_ports@, state.application_ports@[k].id, *host)),
        decreases state.application_ports@.len() - i,
    {
        let port = &state.application_ports[i];
        if port_visible_exec(filters, port) {
            match find_application_port(state, port.id) {
                Some(first) => {
                    if first.data_type == host.data_type && first.direction != host.direction {
                        proof {
                            assert(first_port_fits_host(state.application_ports@, state.application_ports@[i as int].id, *host));
                        }
                        return true;
                    }
                },
                None => {},
            }
        }
        i = i + 1;
    }
    false
}

fn app_endpoint(state: &ConnectionViewState, tracks: &Vec<NamedTrack>, scripts: &Vec<NamedScript>, port: &ApplicationPortState) -> (r: GraphEndpoint)
    ensures
        describes_app_port(*state, tracks@, scripts@, *port, r),
{
    let column = match port.direction {
        PortDirection::Input => GraphColumn::ShoopSinks,
        PortDirection::Output => GraphColumn::ShoopSources,
    };
    GraphEndpoint {
        id: EndpointId::Application(port.id),
        column,
        group: application_group_label(&port.owner, tracks, scripts),
        label: short_port_name(port.name.as_str()).to_string(),
        full_name: port.name.clone(),
        data_type: port.data_type,
        policy: port.connection_policy,
        pending: pending_on_port_exec(state, port.id),
        error: latest_error(state, port.id, None),
    }
}

fn host_endpoint(state: &ConnectionViewState, host: &HostPortState) -> (r: GraphEndpoint)
    ensures
        describes_host_port(*state, *host, r),
{
    let column = match host.direction {
        PortDirection::Output => GraphColumn::SystemSources,
        PortDirection::Input => GraphColumn::SystemSinks,
    };
    let (group, label) = external_name_parts(host.name.as_str());
    GraphEndpoint {
        id: EndpointId::Host(host.id.duplicate()),
        column,
        group,
        label,
        full_name: host.name.clone(),
        data_type: host.data_type,
        policy: ConnectionPolicy::UserManaged,
        pending: pending_on_host_exec(state, &host.id),
        error: latest_host_error(state, &host.id),
    }
}

} // verus!

verus! {

/// A confirmed link joins application port `app` and host port `host`.
pub open spec fn confirmed_has(state: ConnectionViewState, app: PortId, host: Seq<char>) -> bool {
    exists|i: int| 0 <= i < state.confirmed_links@.len()
        && (#[trigger] state.confirmed_links@[i]).application_port_id == app
        && state.confirmed_links@[i].host_port_id.0@ == host
}

/// A pending link change names application port `app` and host port `host`.
pub open spec fn pending_has(state: ConnectionViewState, app: PortId, host: Seq<char>) -> bool {
    exists|i: int| 0 <= i < state.pending_links@.len()
        && (#[trigger] state.pending_links@[i]).application_port_id == app
        && state.pending_links@[i].host_port_id.0@ == host
}

/// An error names application port `app` and host port `host`.
pub open spec fn error_has(state: ConnectionViewState, app: PortId, host: Seq<char>) -> bool {
    exists|i: int| 0 <= i < state.errors@.len()
        && (#[trigger] state.errors@[i]).port_id == Some(app)
        && state.errors@[i].external_port is Some
        && state.errors@[i].external_port->0@ == host
}

/// The pair is confirmed, pending, or failed.
pub open spec fn is_route_key(state: ConnectionViewState, app: PortId, host: Seq<char>) -> bool {
    confirmed_has(state, app, host) || pending_has(state, app, host) || error_has(state, app, host)
}

/// Some shown application port has identity `app`.
pub open spec fn app_id_visible(state: ConnectionViewState, filters: ConnectionFilters, app: PortId) -> bool {
    exists|i: int| 0 <= i < state.application_ports@.len()
        && (#[trigger] state.application_ports@[i]).id == app
        && port_visible(filters, state.application_ports@[i])
}

/// Some shown host port has identity `host`.
pub open spec fn host_id_visible(state: ConnectionViewState, filters: ConnectionFilters, host: Seq<char>) -> bool {
    exists|i: int| 0 <= i < state.host_ports@.len()
        && (#[trigger] state.host_ports@[i]).id.0@ == host
        && host_visible(state, filters, state.host_ports@[i])
}

/// The graph draws a link between application port `app` and host port `host`: the pair is
/// confirmed, pending or failed, both sides are shown, and the first ports with those
/// identities carry the same data in opposite directions.
pub open spec fn route_qualifies(state: ConnectionViewState, filters: ConnectionFilters, app: PortId, host: Seq<char>) -> bool {
    &&& is_route_key(state, app, host)
    &&& app_id_visible(state, filters, app)
    &&& host_id_visible(state, filters, host)
    &&& match (first_application_port(state.application_ports@, app), first_host_port(state.host_ports@, host)) {
        (Some(i), Some(j)) => state.application_ports@[i].data_type == state.host_ports@[j].data_type
            && state.application_ports@[i].direction != state.host_ports@[j].direction,
        _ => false,
    }
}

/// Index of the last of the first `n` pending changes of the pair.
pub open spec fn last_pending_index(state: ConnectionViewState, app: PortId, host: Seq<char>, n: int) -> Option<int>
    decreases n,
{
    if n <= 0 {
        None
    } else if state.pending_links@[n - 1].application_port_id == app && state.pending_links@[n - 1].host_port_id.0@ == host {
        Some(n - 1)
    } else {
        last_pending_index(state, app, host, n - 1)
    }
}

/// How a link is drawn: the last pending change decides, then a confirmed link, else it failed.
pub open spec fn route_state_of(state: ConnectionViewState, app: PortId, host: Seq<char>) -> GraphRouteState {
    match last_pending_index(state, app, host, state.pending_links@.len() as int) {
        Some(i) => if state.pending_links@[i].desired_connected {
            GraphRouteState::PendingConnect
        } else {
            GraphRouteState::PendingDisconnect
        },
        None => if confirmed_has(state, app, host) {
            GraphRouteState::Confirmed
        } else {
            GraphRouteState::Error
        },
    }
}

/// `r` draws the link of its pair as the first application port with its identity decides:
/// signal flows from host to application for an input and the other way for an output.
pub open spec fn describes_route(state: ConnectionViewState, r: GraphRoute) -> bool {
    let app = r.application_port_id;
    let host = r.host_port_id.0@;
    let p = state.application_ports@[first_application_port(state.application_ports@, app)->0];
    &&& r.data_type == p.data_type
    &&& r.policy == p.connection_policy
    &&& match p.direction {
        PortDirection::Input => r.source is Host && r.source->Host_0.0@ == host && r.sink == EndpointId::Application(app),
        PortDirection::Output => r.source == EndpointId::Application(app) && r.sink is Host && r.sink->Host_0.0@ == host,
    }
    &&& r.state == route_state_of(state, app, host)
    &&& text_view(r.error) == error_message_at(state.errors@,
        latest_error_index(state.errors@, app, Some(host), state.errors@.len() as int))
}

/// Links are drawn in order of source, then sink.
pub open spec fn route_less(a: GraphRoute, b: GraphRoute) -> bool {
    endpoint_less(a.source, b.source) || (same_endpoint(a.source, b.source) && endpoint_less(a.sink, b.sink))
}

/// Some link of `routes` is the pair's.
pub open spec fn has_route_key(routes: Seq<GraphRoute>, app: PortId, host: Seq<char>) -> bool {
    exists|k: int| 0 <= k < routes.len() && (#[trigger] routes[k]).application_port_id == app && routes[k].host_port_id.0@ == host
}

/// Every link qualifies and is drawn as its pair decides, in drawing order.
pub open spec fn routes_well_formed(state: ConnectionViewState, filters: ConnectionFilters, routes: Seq<GraphRoute>) -> bool {
    &&& forall|k: int| 0 <= k < routes.len() ==> route_qualifies(state, filters, (#[trigger] routes[k]).application_port_id, routes[k].host_port_id.0@)
    &&& forall|k: int| 0 <= k < routes.len() ==> describes_route(state, #[trigger] routes[k])
    &&& forall|a: int, b: int| 0 <= a < b < routes.len() ==> route_less(routes[a], routes[b])
}

/// The links of a graph: exactly the qualifying pairs, in drawing order.
pub open spec fn routes_built(state: ConnectionViewState, filters: ConnectionFilters, routes: Seq<GraphRoute>) -> bool {
    &&& routes_well_formed(state, filters, routes)
    &&& forall|app: PortId, host: Seq<char>| #[trigger] route_qualifies(state, filters, app, host) ==> has_route_key(routes, app, host)
}

proof fn lemma_route_order(state: ConnectionViewState, a: GraphRoute, b: GraphRoute)
    requires
        describes_route(state, a),
        describes_route(state, b),
        first_application_port(state.application_ports@, a.application_port_id) is Some,
        first_application_port(state.application_ports@, b.application_port_id) is Some,
        !(a.application_port_id == b.application_port_id && a.host_port_id.0@ == b.host_port_id.0@),
    ensures
        route_less(a, b) || route_less(b, a),
        !(route_less(a, b) && route_less(b, a)),
{
    lemma_endpoint_less_total(a.source, b.source);
    lemma_endpoint_less_total(a.sink, b.sink);
    lemma_endpoint_less_total(b.sink, a.sink);
    lemma_endpoint_less_total(b.source, a.source);
}

proof fn lemma_route_less_transitive(a: GraphRoute, b: GraphRoute, c: GraphRoute)
    requires
        route_less(a, b),
        route_less(b, c),
    ensures
        route_less(a, c),
{
    lemma_endpoint_less_total(a.source, b.source);
    lemma_endpoint_less_total(b.source, c.source);
    lemma_endpoint_less_total(a.source, c.source);
    if endpoint_less(a.source, b.source) && endpoint_less(b.source, c.source) {
        lemma_endpoint_less_transitive(a.source, b.source, c.source);
    }
    if same_endpoint(a.source, b.source) {
        lemma_same_endpoint_transitive(a.source, b.source, c.source);
    }
    if same_endpoint(b.source, c.source) {
        lemma_same_endpoint_transitive(c.source, b.source, a.source);
    }
    if same_endpoint(a.source, b.source) && same_endpoint(b.source, c.source) {
        lemma_endpoint_less_transitive(a.sink, b.sink, c.sink);
    }
}

fn app_id_visible_exec(state: &ConnectionViewState, filters: &ConnectionFilters, app: PortId) -> (r: bool)
    ensures
        r == app_id_visible(*state, *filters, app),
{
    let mut i: usize = 0;
    while i < state.application_ports.len()
        invariant
            i <= state.application_ports@.len(),
            forall|k: int| 0 <= k < i ==> !((#[trigger] state.application_ports@[k]).id == app
                && port_visible(*filters, state.application_ports@[k])),
        decreases state.application_ports@.len() - i,
    {
        if state.application_ports[i].id == app && port_visible_exec(filters, &state.application_ports[i]) {
            return true;
        }
        i = i + 1;
    }
    false
}

fn host_id_visible_exec(state: &ConnectionViewState, filters: &ConnectionFilters, host: &HostPortId) -> (r: bool)
    ensures
        r == host_id_visible(*state, *filters, host.0@),
{
    let mut i: usize = 0;
    while i < state.host_ports.len()
        invariant
            i <= state.host_ports@.len(),
            forall|k: int| 0 <= k < i ==> !((#[trigger] state.host_ports@[k]).id.0@ == host.0@
                && host_visible(*state, *filters, state.host_ports@[k])),
        decreases state.host_ports@.len() - i,
    {
        if state.host_ports[i].id.same_as(host) && host_visible_exec(state, filters, &state.host_ports[i]) {
            return true;
        }
        i = i + 1;
    }
    false
}

fn confirmed_has_exec(state: &ConnectionViewState, app: PortId, host: &HostPortId) -> (r: bool)
    ensures
        r == confirmed_has(*state, app, host.0@),
{
    let mut i: usize = 0;
    while i < state.confirmed_links.len()
        invariant
            i <= state.confirmed_links@.len(),
            forall|k: int| 0 <= k < i ==> !((#[trigger] state.confirmed_links@[k]).application_port_id == app
                && state.confirmed_links@[k].host_port_id.0@ == host.0@),
        decreases state.confirmed_links@.len() - i,
    {
        if state.confirmed_links[i].application_port_id == app && state.confirmed_links[i].host_port_id.same_as(host) {
            return true;
        }
        i = i + 1;
    }
    false
}

fn route_state_exec(state: &ConnectionViewState, app: PortId, host: &HostPortId) -> (r: GraphRouteState)
    ensures
        r == route_state_of(*state, app, host.0@),
{
    let mut n: usize = state.pending_links.len();
    while n > 0
        invariant
            n <= state.pending_links@.len(),
            last_pending_index(*state, app, host.0@, state.pending_links@.len() as int)
                == last_pending_index(*state, app, host.0@, n as int),
        decreases n,
    {
        let link = &state.pending_links[n - 1];
        if link.application_port_id == app && link.host_port_id.same_as(host) {
            return if link.desired_connected {
                GraphRouteState::PendingConnect
            } else {
                GraphRouteState::PendingDisconnect
            };
        }
        n = n - 1;
    }
    if confirmed_has_exec(state, app, host) {
        GraphRouteState::Confirmed
    } else {
        GraphRouteState::Error
    }
}

fn has_route_key_exec(routes: &Vec<GraphRoute>, app: PortId, host: &HostPortId) -> (r: bool)
    ensures
        r == has_route_key(routes@, app, host.0@),
{
    let mut i: usize = 0;
    while i < routes.len()
        invariant
            i <= routes@.len(),
            forall|k: int| 0 <= k < i ==> !((#[trigger] routes@[k]).application_port_id == app && routes@[k].host_port_id.0@ == host.0@),
        decreases routes@.len() - i,
    {
        if routes[i].application_port_id == app && routes[i].host_port_id.same_as(host) {
            return true;
        }
        i = i + 1;
    }
    false
}

fn route_less_exec(a: &GraphRoute, b: &GraphRoute) -> (r: bool)
    ensures
        r == route_less(*a, *b),
{
    match a.source.compare(&b.source) {
        TextOrder::Less => true,
        TextOrder::Greater => {
            proof {
                lemma_endpoint_less_total(a.source, b.source);
            }
            false
        },
        TextOrder::Equal => {
            proof {
                lemma_endpoint_less_total(a.source, b.source);
            }
            match a.sink.compare(&b.sink) {
                TextOrder::Less => true,
                _ => false,
            }
        },
    }
}

/// Adds the link of the pair when it qualifies and is not drawn yet.
fn add_route_key(state: &ConnectionViewState, filters: &ConnectionFilters, app: PortId, host: &HostPortId, routes: &mut Vec<GraphRoute>)
    requires
        is_route_key(*state, app, host.0@),
        routes_well_formed(*state, *filters, old(routes)@),
    ensures
        routes_well_formed(*state, *filters, final(routes)@),
        forall|a: PortId, h: Seq<char>| has_route_key(old(routes)@, a, h) ==> #[trigger] has_route_key(final(routes)@, a, h),
        forall|a: PortId, h: Seq<char>| #[trigger] has_route_key(final(routes)@, a, h) ==> has_route_key(old(routes)@, a, h) || route_qualifies(*state, *filters, a, h),
        route_qualifies(*state, *filters, app, host.0@) ==> has_route_key(final(routes)@, app, host.0@),
{
    if !app_id_visible_exec(state, filters, app) || !host_id_visible_exec(state, filters, host) {
        return;
    }
    let port = match find_application_port(state, app) {
        Some(port) => port,
        None => return,
    };
    let host_port = match find_host_port(state, host) {
        Some(h) => h,
        None => return,
    };
    if port.data_type != host_port.data_type || port.direction == host_port.direction {
        return;
    }
    if has_route_key_exec(routes, app, host) {
        return;
    }
    let (source, sink) = match port.direction {
        PortDirection::Input => (EndpointId::Host(host.duplicate()), EndpointId::Application(app)),
        PortDirection::Output => (EndpointId::Application(app), EndpointId::Host(host.duplicate())),
    };
    let route = GraphRoute {
        application_port_id: app,
        host_port_id: host.duplicate(),
        source,
        sink,
        data_type: port.data_type,
        policy: port.connection_policy,
        state: route_state_exec(state, app, host),
        error: latest_error(state, app, Some(host)),
    };
    assert(route_qualifies(*state, *filters, app, host.0@));
    assert(describes_route(*state, route));
    let mut pos: usize = 0;
    while pos < routes.len() && !route_less_exec(&route, &routes[pos])
        invariant
            pos <= routes@.len(),
            forall|k: int| 0 <= k < pos ==> !route_less(route, routes@[k]),
        decreases routes@.len() - pos,
    {
        pos = pos + 1;
    }
    let ghost old_routes = routes@;
    routes.insert(pos, route);
    proof {
        assert(routes@ == old_routes.insert(pos as int, route));
        assert forall|k: int| 0 <= k < old_routes.len() implies
            !((#[trigger] old_routes[k]).application_port_id == app && old_routes[k].host_port_id.0@ == host.0@) by {
            if old_routes[k].application_port_id == app && old_routes[k].host_port_id.0@ == host.0@ {
                assert(has_route_key(old_routes, app, host.0@));
            }
        }
        assert forall|a: int, b: int| 0 <= a < b < routes@.len() implies route_less(routes@[a], routes@[b]) by {
            if a < pos && b == pos {
                assert(!route_less(route, old_routes[a]));
                lemma_route_order(*state, route, old_routes[a]);
            } else if a == pos && b > pos {
                if b - 1 > pos {
                    lemma_route_less_transitive(route, old_routes[pos as int], old_routes[b - 1]);
                }
            } else if a < pos && b > pos {
                assert(route_less(old_routes[a], old_routes[b - 1]));
            } else if a > pos {
                assert(route_less(old_routes[a - 1], old_routes[b - 1]));
            } else {
                assert(route_less(old_routes[a], old_routes[b]));
            }
        }
        assert forall|k: int| 0 <= k < routes@.len() implies route_qualifies(*state, *filters, (#[trigger] routes@[k]).application_port_id, routes@[k].host_port_id.0@) by {
            if k < pos {
                assert(routes@[k] == old_routes[k]);
            } else if k > pos {
                assert(routes@[k] == old_routes[k - 1]);
            }
        }
        assert forall|k: int| 0 <= k < routes@.len() implies describes_route(*state, #[trigger] routes@[k]) by {
            if k < pos {
                assert(routes@[k] == old_routes[k]);
            } else if k > pos {
                assert(routes@[k] == old_routes[k - 1]);
            }
        }
        assert forall|a: PortId, h: Seq<char>| has_route_key(old_routes, a, h) implies #[trigger] has_route_key(routes@, a, h) by {
            let k = choose|k: int| 0 <= k < old_routes.len() && (#[trigger] old_routes[k]).application_port_id == a && old_routes[k].host_port_id.0@ == h;
            if k < pos {
                assert(routes@[k] == old_routes[k]);
            } else {
                assert(routes@[k + 1] == old_routes[k]);
            }
        }
        assert forall|a: PortId, h: Seq<char>| #[trigger] has_route_key(routes@, a, h) implies has_route_key(old_routes, a, h) || route_qualifies(*state, *filters, a, h) by {
            let k = choose|k: int| 0 <= k < routes@.len() && (#[trigger] routes@[k]).application_port_id == a && routes@[k].host_port_id.0@ == h;
            if k < pos {
                assert(routes@[k] == old_routes[k]);
            } else if k > pos {
                assert(routes@[k] == old_routes[k - 1]);
            }
        }
        assert(routes@[pos as int] == route);
    }
}

} // verus!

verus! {

/// The graph of `state` under `filters`.
pub open spec fn graph_built(state: ConnectionViewState, tracks: Seq<NamedTrack>, scripts: Seq<NamedScript>,
    filters: ConnectionFilters, graph: ConnectionGraph) -> bool {
    &&& host_column_built(state, filters, GraphColumn::SystemSources, graph.system_sources@)
    &&& app_column_built(state, tracks, scripts, filters, GraphColumn::ShoopSinks, graph.shoop_sinks@)
    &&& app_column_built(state, tracks, scripts, filters, GraphColumn::ShoopSources, graph.shoop_sources@)
    &&& host_column_built(state, filters, GraphColumn::SystemSinks, graph.system_sinks@)
    &&& routes_built(state, filters, graph.routes@)
}

/// The shown application ports of one column, each as an endpoint, in port order.
fn app_column_items(state: &ConnectionViewState, tracks: &Vec<NamedTrack>, scripts: &Vec<NamedScript>,
    filters: &ConnectionFilters, direction: PortDirection) -> (r: Vec<GraphEndpoint>)
    ensures
        r@.len() == column_app_ports(*state, *filters, app_column(direction)).len(),
        forall|k: int| 0 <= k < r@.len() ==> describes_app_port(*state, tracks@, scripts@,
            column_app_ports(*state, *filters, app_column(direction))[k], #[trigger] r@[k]),
{
    let ghost column = app_column(direction);
    let ghost pred = |p: ApplicationPortState| port_visible(*filters, p) && app_column(p.direction) == column;
    let mut items: Vec<GraphEndpoint> = Vec::new();
    let mut i: usize = 0;
    while i < state.application_ports.len()
        invariant
            i <= state.application_ports@.len(),
            column == app_column(direction),
            pred == |p: ApplicationPortState| port_visible(*filters, p) && app_column(p.direction) == column,
            items@.len() == state.application_ports@.take(i as int).filter(pred).len(),
            forall|k: int| 0 <= k < items@.len() ==> describes_app_port(*state, tracks@, scripts@,
                state.application_ports@.take(i as int).filter(pred)[k], #[trigger] items@[k]),
        decreases state.application_ports@.len() - i,
    {
        proof {
            reveal_with_fuel(Seq::<_>::filter, 1);
            assert(state.application_ports@.take(i + 1).drop_last() =~= state.application_ports@.take(i as int));
        }
        let port = &state.application_ports[i];
        let same_column = match (port.direction, direction) {
            (PortDirection::Input, PortDirection::Input) => true,
            (PortDirection::Output, PortDirection::Output) => true,
            _ => false,
        };
        if port_visible_exec(filters, port) && same_column {
            items.push(app_endpoint(state, tracks, scripts, port));
        }
        i = i + 1;
    }
    proof {
        assert(state.application_ports@.take(state.application_ports@.len() as int) =~= state.application_ports@);
    }
    items
}

/// The shown host ports of one column, each as an endpoint, in port order.
fn host_column_items(state: &ConnectionViewState, filters: &ConnectionFilters, direction: PortDirection) -> (r: Vec<GraphEndpoint>)
    ensures
        r@.len() == column_host_ports(*state, *filters, host_column(direction)).len(),
        forall|k: int| 0 <= k < r@.len() ==> describes_host_port(*state,
            column_host_ports(*state, *filters, host_column(direction))[k], #[trigger] r@[k]),
{
    let ghost column = host_column(direction);
    let ghost pred = |h: HostPortState| host_visible(*state, *filters, h) && host_column(h.direction) == column;
    let mut items: Vec<GraphEndpoint> = Vec::new();
    let mut i: usize = 0;
    while i < state.host_ports.len()
        invariant
            i <= state.host_ports@.len(),
            column == host_column(direction),
            pred == |h: HostPortState| host_visible(*state, *filters, h) && host_column(h.direction) == column,
            items@.len() == state.host_ports@.take(i as int).filter(pred).len(),
            forall|k: int| 0 <= k < items@.len() ==> describes_host_port(*state,
                state.host_ports@.take(i as int).filter(pred)[k], #[trigger] items@[k]),
        decreases state.host_ports@.len() - i,
    {
        proof {
            reveal_with_fuel(Seq::<_>::filter, 1);
            assert(state.host_ports@.take(i + 1).drop_last() =~= state.host_ports@.take(i as int));
        }
        let host = &state.host_ports[i];
        let same_column = match (host.direction, direction) {
            (PortDirection::Input, PortDirection::Input) => true,
            (PortDirection::Output, PortDirection::Output) => true,
            _ => false,
        };
        if same_column && host_visible_exec(state, filters, host) {
            items.push(host_endpoint(state, host));
        }
        i = i + 1;
    }
    proof {
        assert(state.host_ports@.take(state.host_ports@.len() as int) =~= state.host_ports@);
    }
    items
}

impl ConnectionGraph {
    /// The graph of the ports and links in `state` that `filters` keep.
    ///
    /// Each column shows its ports in order of group, label and identity. Application ports
    /// are grouped by their track or script (`tracks` and `scripts` name them) and labelled
    /// with the part of their name after the first colon; host ports are shown when some shown
    /// application port could be linked to them, grouped by the part of their name before the
    /// first colon. Links are drawn for every confirmed, pending or failed pair whose two sides
    /// are shown and fit together, in order of source and sink.
    pub fn build(state: &ConnectionViewState, tracks: &Vec<NamedTrack>, scripts: &Vec<NamedScript>,
        filters: &ConnectionFilters) -> (r: ConnectionGraph)
        ensures
            graph_built(*state, tracks@, scripts@, *filters, r),
    {
        let sinks = app_column_items(state, tracks, scripts, filters, PortDirection::Input);
        let sources = app_column_items(state, tracks, scripts, filters, PortDirection::Output);
        let system_sources = host_column_items(state, filters, PortDirection::Output);
        let system_sinks = host_column_items(state, filters, PortDirection::Input);
        let shoop_sinks = lay_out_endpoints(&sinks);
        let shoop_sources = lay_out_endpoints(&sources);
        let laid_system_sources = lay_out_endpoints(&system_sources);
        let laid_system_sinks = lay_out_endpoints(&system_sinks);
        proof {
            assert(sinks@.len() == column_app_ports(*state, *filters, GraphColumn::ShoopSinks).len());
            assert(app_column_built(*state, tracks@, scripts@, *filters, GraphColumn::ShoopSinks, shoop_sinks@));
            assert(sources@.len() == column_app_ports(*state, *filters, GraphColumn::ShoopSources).len());
            assert(app_column_built(*state, tracks@, scripts@, *filters, GraphColumn::ShoopSources, shoop_sources@));
            assert(system_sources@.len() == column_host_ports(*state, *filters, GraphColumn::SystemSources).len());
            assert(host_column_built(*state, *filters, GraphColumn::SystemSources, laid_system_sources@));
            assert(system_sinks@.len() == column_host_ports(*state, *filters, GraphColumn::SystemSinks).len());
            assert(host_column_built(*state, *filters, GraphColumn::SystemSinks, laid_system_sinks@));
        }

        let mut routes: Vec<GraphRoute> = Vec::new();
        let mut i: usize = 0;
        while i < state.confirmed_links.len()
            invariant
                i <= state.confirmed_links@.len(),
                routes_well_formed(*state, *filters, routes@),
                forall|a: PortId, h: Seq<char>| #[trigger] has_route_key(routes@, a, h) ==> route_qualifies(*state, *filters, a, h),
                forall|k: int| 0 <= k < i && #[trigger] route_qualifies(*state, *filters, state.confirmed_links@[k].application_port_id, state.confirmed_links@[k].host_port_id.0@)
                    ==> has_route_key(routes@, state.confirmed_links@[k].application_port_id, state.confirmed_links@[k].host_port_id.0@),
            decreases state.confirmed_links@.len() - i,
        {
            let link = &state.confirmed_links[i];
            proof {
                assert(confirmed_has(*state, link.application_port_id, link.host_port_id.0@)) by {
                    assert(state.confirmed_links@[i as int] == *link);
                }
            }
            add_route_key(state, filters, link.application_port_id, &link.host_port_id, &mut routes);
            i = i + 1;
        }
        let mut i: usize = 0;
        while i < state.pending_links.len()
            invariant
                i <= state.pending_links@.len(),
                routes_well_formed(*state, *filters, routes@),
                forall|a: PortId, h: Seq<char>| #[trigger] has_route_key(routes@, a, h) ==> route_qualifies(*state, *filters, a, h),
                forall|k: int| 0 <= k < state.confirmed_links@.len() && #[trigger] route_qualifies(*state, *filters, state.confirmed_links@[k].application_port_id, state.confirmed_links@[k].host_port_id.0@)
                    ==> has_route_key(routes@, state.confirmed_links@[k].application_port_id, state.confirmed_links@[k].host_port_id.0@),
                forall|k: int| 0 <= k < i && #[trigger] route_qualifies(*state, *filters, state.pending_links@[k].application_port_id, state.pending_links@[k].host_port_id.0@)
                    ==> has_route_key(routes@, state.pending_links@[k].application_port_id, state.pending_links@[k].host_port_id.0@),
            decreases state.pending_links@.len() - i,
        {
            let link = &state.pending_links[i];
            proof {
                assert(pending_has(*state, link.application_port_id, link.host_port_id.0@)) by {
                    assert(state.pending_links@[i as int] == *link);
                }
            }
            add_route_key(state, filters, link.application_port_id, &link.host_port_id, &mut routes);
            i = i + 1;
        }
        let mut i: usize = 0;
        while i < state.errors.len()
            invariant
                i <= state.errors@.len(),
                routes_well_formed(*state, *filters, routes@),
                forall|a: PortId, h: Seq<char>| #[trigger] has_route_key(routes@, a, h) ==> route_qualifies(*state, *filters, a, h),
                forall|k: int| 0 <= k < state.confirmed_links@.len() && #[trigger] route_qualifies(*state, *filters, state.confirmed_links@[k].application_port_id, state.confirmed_links@[k].host_port_id.0@)
                    ==> has_route_key(routes@, state.confirmed_links@[k].application_port_id, state.confirmed_links@[k].host_port_id.0@),
                forall|k: int| 0 <= k < state.pending_links@.len() && #[trigger] route_qualifies(*state, *filters, state.pending_links@[k].application_port_id, state.pending_links@[k].host_port_id.0@)
                    ==> has_route_key(routes@, state.pending_links@[k].application_port_id, state.pending_links@[k].host_port_id.0@),
                forall|k: int, a: PortId| 0 <= k < i && state.errors@[k].port_id == Some(a) && state.errors@[k].external_port is Some
                    && #[trigger] route_qualifies(*state, *filters, a, state.errors@[k].external_port->0@)
                    ==> has_route_key(routes@, a, state.errors@[k].external_port->0@),
            decreases state.errors@.len() - i,
        {
            let error = &state.errors[i];
            match (error.port_id, &error.external_port) {
                (Some(app), Some(external)) => {
                    let host = HostPortId::from_string(external.clone());
                    proof {
                        assert(error_has(*state, app, host.0@)) by {
                            assert(state.errors@[i as int] == *error);
                        }
                    }
                    add_route_key(state, filters, app, &host, &mut routes);
                },
                _ => {},
            }
            i = i + 1;
        }
        proof {
            assert forall|app: PortId, host: Seq<char>| #[trigger] route_qualifies(*state, *filters, app, host) implies has_route_key(routes@, app, host) by {
                if confirmed_has(*state, app, host) {
                    let k = choose|k: int| 0 <= k < state.confirmed_links@.len()
                        && (#[trigger] state.confirmed_links@[k]).application_port_id == app
                        && state.confirmed_links@[k].host_port_id.0@ == host;
                    assert(route_qualifies(*state, *filters, state.confirmed_links@[k].application_port_id, state.confirmed_links@[k].host_port_id.0@));
                } else if pending_has(*state, app, host) {
                    let k = choose|k: int| 0 <= k < state.pending_links@.len()
                        && (#[trigger] state.pending_links@[k]).application_port_id == app
                        && state.pending_links@[k].host_port_id.0@ == host;
                    assert(route_qualifies(*state, *filters, state.pending_links@[k].application_port_id, state.pending_links@[k].host_port_id.0@));
                } else {
                    let k = choose|k: int| 0 <= k < state.errors@.len()
                        && (#[trigger] state.errors@[k]).port_id == Some(app)
                        && state.errors@[k].external_port is Some
                        && state.errors@[k].external_port->0@ == host;
                    assert(route_qualifies(*state, *filters, app, state.errors@[k].external_port->0@));
                }
            }
        }
        ConnectionGraph {
            system_sources: laid_system_sources,
            shoop_sinks,
            shoop_sources,
            system_sinks: laid_system_sinks,
            routes,
        }
    }
}

/// The graph shows an endpoint with this identity, in some column.
pub open spec fn shows_endpoint(graph: ConnectionGraph, id: EndpointId) -> bool {
    exists|c: GraphColumn, k: int|
        0 <= k < column_endpoints(graph, c).len() && same_endpoint(
            #[trigger] column_endpoints(graph, c)[k].id,
            id,
        )
}

proof fn lemma_laid_out_item_shown(items: Seq<GraphEndpoint>, result: Seq<GraphEndpoint>, m: int)
    requires
        is_endpoint_layout(items, result),
        0 <= m < items.len(),
        m <= usize::MAX,
    ensures
        exists|q: int| 0 <= q < result.len() && #[trigger] result[q] == items[m],
{
    let order = choose|order: Seq<usize>| #[trigger] lays_out_endpoints(items, order, result);
    assert(order.contains(m as usize));
    let q = choose|q: int| 0 <= q < order.len() && order[q] == m as usize;
    assert(order[q] as int == m);
    assert(result[q] == items[m]);
}

proof fn lemma_app_port_shown(
    state: ConnectionViewState,
    tracks: Seq<NamedTrack>,
    scripts: Seq<NamedScript>,
    filters: ConnectionFilters,
    graph: ConnectionGraph,
    i: int,
)
    requires
        graph_built(state, tracks, scripts, filters, graph),
        0 <= i < state.application_ports@.len(),
        port_visible(filters, state.application_ports@[i]),
    ensures
        shows_endpoint(graph, EndpointId::Application(state.application_ports@[i].id)),
{
    let p = state.application_ports@[i];
    let c = app_column(p.direction);
    let pred = |q: ApplicationPortState| port_visible(filters, q) && app_column(q.direction) == c;
    state.application_ports@.lemma_filter_contains(pred, i);
    let ports = column_app_ports(state, filters, c);
    assert(ports == state.application_ports@.filter(pred));
    assert(ports.contains(p));
    let m = choose|m: int| 0 <= m < ports.len() && ports[m] == p;
    state.application_ports@.lemma_filter_len(pred);
    assert(state.application_ports@.len() == state.application_ports.len());
    let items = choose|items: Seq<GraphEndpoint>| #[trigger] items.len() == ports.len()
        && (forall|k: int| 0 <= k < ports.len() ==> describes_app_port(state, tracks, scripts, ports[k], #[trigger] items[k]))
        && is_endpoint_layout(items, column_endpoints(graph, c));
    assert(describes_app_port(state, tracks, scripts, ports[m], items[m]));
    lemma_laid_out_item_shown(items, column_endpoints(graph, c), m);
    let q = choose|q: int| 0 <= q < column_endpoints(graph, c).len() && #[trigger] column_endpoints(graph, c)[q] == items[m];
    assert(same_endpoint(column_endpoints(graph, c)[q].id, EndpointId::Application(p.id)));
}

proof fn lemma_host_port_shown(
    state: ConnectionViewState,
    tracks: Seq<NamedTrack>,
    scripts: Seq<NamedScript>,
    filters: ConnectionFilters,
    graph: ConnectionGraph,
    i: int,
    id: HostPortId,
)
    requires
        graph_built(state, tracks, scripts, filters, graph),
        0 <= i < state.host_ports@.len(),
        host_visible(state, filters, state.host_ports@[i]),
        id.0@ == state.host_ports@[i].id.0@,
    ensures
        shows_endpoint(graph, EndpointId::Host(id)),
{
    let h = state.host_ports@[i];
    let c = host_column(h.direction);
    let pred = |x: HostPortState| host_visible(state, filters, x) && host_column(x.direction) == c;
    state.host_ports@.lemma_filter_contains(pred, i);
    let hosts = column_host_ports(state, filters, c);
    assert(hosts == state.host_ports@.filter(pred));
    assert(hosts.contains(h));
    let m = choose|m: int| 0 <= m < hosts.len() && hosts[m] == h;
    state.host_ports@.lemma_filter_len(pred);
    assert(state.host_ports@.len() == state.host_ports.len());
    let items = choose|items: Seq<GraphEndpoint>| #[trigger] items.len() == hosts.len()
        && (forall|k: int| 0 <= k < hosts.len() ==> describes_host_port(state, hosts[k], #[trigger] items[k]))
        && is_endpoint_layout(items, column_endpoints(graph, c));
    assert(describes_host_port(state, hosts[m], items[m]));
    lemma_laid_out_item_shown(items, column_endpoints(graph, c), m);
    let q = choose|q: int| 0 <= q < column_endpoints(graph, c).len() && #[trigger] column_endpoints(graph, c)[q] == items[m];
    assert(same_endpoint(column_endpoints(graph, c)[q].id, EndpointId::Host(id)));
}

/// Every link that the graph draws joins two endpoints that it shows.
pub proof fn lemma_links_join_shown_endpoints(
    state: ConnectionViewState,
    tracks: Seq<NamedTrack>,
    scripts: Seq<NamedScript>,
    filters: ConnectionFilters,
    graph: ConnectionGraph,
    k: int,
)
    requires
        graph_built(state, tracks, scripts, filters, graph),
        0 <= k < graph.routes@.len(),
    ensures
        shows_endpoint(graph, graph.routes@[k].source),
        shows_endpoint(graph, graph.routes@[k].sink),
{
    let r = graph.routes@[k];
    let app = r.application_port_id;
    let host = r.host_port_id.0@;
    assert(route_qualifies(state, filters, app, host));
    assert(describes_route(state, r));
    let i = choose|i: int| 0 <= i < state.application_ports@.len()
        && (#[trigger] state.application_ports@[i]).id == app
        && port_visible(filters, state.application_ports@[i]);
    lemma_app_port_shown(state, tracks, scripts, filters, graph, i);
    let j = choose|j: int| 0 <= j < state.host_ports@.len()
        && (#[trigger] state.host_ports@[j]).id.0@ == host
        && host_visible(state, filters, state.host_ports@[j]);
    let p = state.application_ports@[first_application_port(state.application_ports@, app)->0];
    match p.direction {
        PortDirection::Input => {
            lemma_host_port_shown(state, tracks, scripts, filters, graph, j, r.source->Host_0);
        },
        PortDirection::Output => {
            lemma_host_port_shown(state, tracks, scripts, filters, graph, j, r.sink->Host_0);
        },
    }
}

} // verus!
