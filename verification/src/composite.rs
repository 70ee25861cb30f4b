//! Layout of composite loop schedules: lanes, cycles and script modes.

use vstd::prelude::*;

use crate::ids::{LoopId, TrackId};

verus! {

/// The mode of a loop.
#[derive(Clone, Copy, Debug, PartialEq, Eq, Structural)]
pub enum LoopMode {
    Unknown,
    Stopped,
    Playing,
    Recording,
    Replacing,
    PlayingDryThroughWet,
    RecordingDryIntoWet,
}

/// What kind of composite a loop is, if any.
#[derive(Clone, Copy, Debug, PartialEq, Eq, Structural)]
pub enum CompositeKind {
    NotComposite,
    Regular,
    Script,
}

/// A track row of a composite schedule.
#[derive(Clone, Debug, PartialEq, Eq)]
pub struct CompositeTrackDetails {
    pub id: TrackId,
    pub name: String,
}

/// One scheduled event of a composite loop.
#[derive(Clone, Debug, PartialEq, Eq)]
pub struct CompositeEventDetails {
    pub instance_id: u64,
    pub loop_id: LoopId,
    pub loop_name: String,
    pub track_id: TrackId,
    pub start_frame: u64,
    pub end_frame: u64,
    pub loop_mode: LoopMode,
    pub mode: Option<String>,
    pub forced_n_cycles: Option<u32>,
}

/// The identity of a scheduled event within its composite loop.
#[derive(Clone, Copy, Debug, PartialEq, Eq, Structural)]
pub struct CompositeEventId {
    pub instance_id: u64,
}

/// The schedule of a composite loop.
#[derive(Clone, Debug, PartialEq, Eq)]
pub struct CompositeDetails {
    pub cycle_length_frames: u64,
    pub timeline_length_frames: u64,
    pub tracks: Vec<CompositeTrackDetails>,
    pub events: Vec<CompositeEventDetails>,
}

/// An event placed in a lane of its track.
#[derive(Clone, Copy, Debug, PartialEq, Eq, Structural)]
pub struct PackedEvent {
    pub event_index: usize,
    pub lane: usize,
}

/// The events of one track, placed in lanes.
#[derive(Clone, Debug, PartialEq, Eq)]
pub struct PackedTrack {
    pub track_id: TrackId,
    pub lane_count: usize,
    pub events: Vec<PackedEvent>,
}

/// Events are laid out in the order of start, end, instance, loop and position.
pub open spec fn event_key_less(events: Seq<CompositeEventDetails>, a: int, b: int) -> bool {
    let x = events[a];
    let y = events[b];
    if x.start_frame != y.start_frame {
        x.start_frame < y.start_frame
    } else if x.end_frame != y.end_frame {
        x.end_frame < y.end_frame
    } else if x.instance_id != y.instance_id {
        x.instance_id < y.instance_id
    } else if x.loop_id.0 != y.loop_id.0 {
        x.loop_id.0 < y.loop_id.0
    } else {
        a < b
    }
}

/// Track row `t` is the first row with its identity; later rows with the same identity get no events.
pub open spec fn first_row_of_track(tracks: Seq<CompositeTrackDetails>, t: int) -> bool {
    forall|j: int| 0 <= j < t ==> tracks[j].id != tracks[t].id
}

/// Event `i` is laid out in track row `t`.
pub open spec fn event_in_row(details: CompositeDetails, t: int, i: int) -> bool {
    &&& first_row_of_track(details.tracks@, t)
    &&& 0 <= i < details.events@.len()
    &&& details.events@[i].track_id == details.tracks@[t].id
}

/// The first lane whose last event ends no later than `start`, or a new lane.
pub open spec fn first_free_lane(ends: Seq<u64>, start: u64) -> nat
    decreases ends.len(),
{
    if ends.len() == 0 {
        0
    } else if ends[0] <= start {
        0
    } else {
        1 + first_free_lane(ends.drop_first(), start)
    }
}

/// Lane ends after placing an event from `start` to `end`.
pub open spec fn place_event(ends: Seq<u64>, start: u64, end: u64) -> Seq<u64> {
    let lane = first_free_lane(ends, start);
    if lane < ends.len() {
        ends.update(lane as int, end)
    } else {
        ends.push(end)
    }
}

/// Lane ends after placing the events of `order`, one after the other.
pub open spec fn lane_ends_after(events: Seq<CompositeEventDetails>, order: Seq<usize>) -> Seq<u64>
    decreases order.len(),
{
    if order.len() == 0 {
        Seq::empty()
    } else {
        let e = events[order.last() as int];
        place_event(lane_ends_after(events, order.drop_last()), e.start_frame, e.end_frame)
    }
}

/// The lane of the `k`-th event of `order`.
pub open spec fn lane_of(events: Seq<CompositeEventDetails>, order: Seq<usize>, k: int) -> nat {
    first_free_lane(lane_ends_after(events, order.take(k)), events[order[k] as int].start_frame)
}

/// `order` lists event indices in strictly increasing layout order.
pub open spec fn sorted_by_event_key(events: Seq<CompositeEventDetails>, order: Seq<usize>) -> bool {
    forall|a: int, b: int| 0 <= a < b < order.len() ==> event_key_less(events, order[a] as int, order[b] as int)
}

/// `packed` is the lane layout of track row `t`.
pub open spec fn packs_row(details: CompositeDetails, t: int, packed: PackedTrack) -> bool {
    let order = packed.events@.map_values(|e: PackedEvent| e.event_index);
    &&& packed.track_id == details.tracks@[t].id
    &&& forall|i: int| order.contains(i as usize) && 0 <= i <= usize::MAX <==> event_in_row(details, t, i)
    &&& sorted_by_event_key(details.events@, order)
    &&& forall|k: int| 0 <= k < order.len() ==> #[trigger] packed.events@[k].lane == lane_of(details.events@, order, k)
    &&& packed.lane_count == if lane_ends_after(details.events@, order).len() == 0 { 1 } else { lane_ends_after(details.events@, order).len() }
}

proof fn lemma_first_free_lane(ends: Seq<u64>, start: u64)
    ensures
        first_free_lane(ends, start) <= ends.len(),
        forall|l: int| 0 <= l < first_free_lane(ends, start) ==> ends[l] > start,
        first_free_lane(ends, start) < ends.len() ==> ends[first_free_lane(ends, start) as int] <= start,
    decreases ends.len(),
{
    if ends.len() > 0 && ends[0] > start {
        lemma_first_free_lane(ends.drop_first(), start);
        assert forall|l: int| 0 <= l < first_free_lane(ends, start) implies ends[l] > start by {
            if l > 0 {
                assert(ends[l] == ends.drop_first()[l - 1]);
            }
        }
    }
}

proof fn lemma_first_free_lane_unique(ends: Seq<u64>, start: u64, lane: int)
    requires
        0 <= lane <= ends.len(),
        forall|l: int| 0 <= l < lane ==> ends[l] > start,
        lane < ends.len() ==> ends[lane] <= start,
    ensures
        first_free_lane(ends, start) == lane,
{
    lemma_first_free_lane(ends, start);
    let f = first_free_lane(ends, start) as int;
    if f < lane {
        assert(ends[f] > start);
    } else if f > lane {
        assert(ends[lane] > start);
    }
}

fn event_key_less_exec(events: &Vec<CompositeEventDetails>, a: usize, b: usize) -> (r: bool)
    requires
        a < events@.len(),
        b < events@.len(),
    ensures
        r == event_key_less(events@, a as int, b as int),
{
    let x = &events[a];
    let y = &events[b];
    if x.start_frame != y.start_frame {
        x.start_frame < y.start_frame
    } else if x.end_frame != y.end_frame {
        x.end_frame < y.end_frame
    } else if x.instance_id != y.instance_id {
        x.instance_id < y.instance_id
    } else if x.loop_id.0 != y.loop_id.0 {
        x.loop_id.0 < y.loop_id.0
    } else {
        a < b
    }
}

/// Indices of the events of track row `t`, in layout order.
fn row_event_order(details: &CompositeDetails, t: usize) -> (order: Vec<usize>)
    requires
        t < details.tracks@.len(),
    ensures
        forall|i: int| order@.contains(i as usize) && 0 <= i <= usize::MAX <==> event_in_row(*details, t as int, i),
        sorted_by_event_key(details.events@, order@),
        forall|k: int| 0 <= k < order@.len() ==> order@[k] < details.events@.len(),
{
    let id = details.tracks[t].id;
    let mut first = true;
    let mut j: usize = 0;
    while j < t
        invariant
            j <= t,
            t < details.tracks@.len(),
            id == details.tracks@[t as int].id,
            first == (forall|m: int| 0 <= m < j ==> details.tracks@[m].id != id),
        decreases t - j,
    {
        if details.tracks[j].id == id {
            first = false;
        }
        j = j + 1;
    }
    let mut order: Vec<usize> = Vec::new();
    if !first {
        proof {
            assert forall|i: int| order@.contains(i as usize) && 0 <= i <= usize::MAX <==> event_in_row(*details, t as int, i) by {
                if event_in_row(*details, t as int, i) {
                    assert(first_row_of_track(details.tracks@, t as int));
                }
            }
        }
        return order;
    }
    let n = details.events.len();
    let mut i: usize = 0;
    while i < n
        invariant
            n == details.events@.len(),
            i <= n,
            t < details.tracks@.len(),
            id == details.tracks@[t as int].id,
            first_row_of_track(details.tracks@, t as int),
            forall|x: int| order@.contains(x as usize) && 0 <= x <= usize::MAX <==> (event_in_row(*details, t as int, x) && x < i),
            sorted_by_event_key(details.events@, order@),
            forall|k: int| 0 <= k < order@.len() ==> order@[k] < i,
        decreases n - i,
    {
        if details.events[i].track_id == id {
            let mut pos: usize = 0;
            while pos < order.len() && !event_key_less_exec(&details.events, i, order[pos])
                invariant
                    pos <= order@.len(),
                    i < n,
                    n == details.events@.len(),
                    forall|k: int| 0 <= k < order@.len() ==> order@[k] < i,
                    forall|k: int| 0 <= k < pos ==> !event_key_less(details.events@, i as int, order@[k] as int),
                decreases order@.len() - pos,
            {
                pos = pos + 1;
            }
            let ghost old_order = order@;
            order.insert(pos, i);
            proof {
                assert(order@ == old_order.insert(pos as int, i));
                assert forall|a: int, b: int| 0 <= a < b < order@.len() implies event_key_less(details.events@, order@[a] as int, order@[b] as int) by {
                    if a < pos && b == pos {
                        assert(!event_key_less(details.events@, i as int, old_order[a] as int));
                        assert(old_order[a] < i);
                    } else if a == pos && b > pos {
                        assert(event_key_less(details.events@, i as int, old_order[pos as int] as int));
                        if b - 1 > pos {
                            assert(event_key_less(details.events@, old_order[pos as int] as int, old_order[b - 1] as int));
                        }
                    } else if a < pos && b > pos {
                        assert(event_key_less(details.events@, old_order[a] as int, old_order[b - 1] as int));
                    } else if a > pos {
                        assert(event_key_less(details.events@, old_order[a - 1] as int, old_order[b - 1] as int));
                    } else {
                        assert(event_key_less(details.events@, old_order[a] as int, old_order[b] as int));
                    }
                }
                assert forall|x: int| order@.contains(x as usize) && 0 <= x <= usize::MAX <==> (event_in_row(*details, t as int, x) && x < i + 1) by {
                    if 0 <= x <= usize::MAX && order@.contains(x as usize) {
                        let k = choose|k: int| 0 <= k < order@.len() && order@[k] == x as usize;
                        if k != pos {
                            if k < pos {
                                assert(old_order[k] == x as usize);
                            } else {
                                assert(old_order[k - 1] == x as usize);
                            }
                            assert(old_order.contains(x as usize));
                        }
                    }
                    if event_in_row(*details, t as int, x) && x < i + 1 {
                        if x == i {
                            assert(order@[pos as int] == i);
                        } else {
                            assert(old_order.contains(x as usize));
                            let k = choose|k: int| 0 <= k < old_order.len() && old_order[k] == x as usize;
                            if k < pos {
                                assert(order@[k] == x as usize);
                            } else {
                                assert(order@[k + 1] == x as usize);
                            }
                        }
                    }
                }
            }
        } else {
            proof {
                assert forall|x: int| order@.contains(x as usize) && 0 <= x <= usize::MAX <==> (event_in_row(*details, t as int, x) && x < i + 1) by {
                    if x == i {
                        assert(!event_in_row(*details, t as int, x));
                        if order@.contains(x as usize) {
                            let k = choose|k: int| 0 <= k < order@.len() && order@[k] == x as usize;
                        }
                    }
                }
            }
        }
        i = i + 1;
    }
    order
}

/// Places the events of every track in lanes: events are taken in layout order and each goes
/// to the first lane whose previous event has ended by the event's start, or to a new lane.
/// Every track keeps at least one lane.
pub fn pack_swimlanes(details: &CompositeDetails) -> (r: Vec<PackedTrack>)
    ensures
        r@.len() == details.tracks@.len(),
        forall|t: int| 0 <= t < r@.len() ==> packs_row(*details, t, #[trigger] r@[t]),
{
    let mut result: Vec<PackedTrack> = Vec::new();
    let mut t: usize = 0;
    while t < details.tracks.len()
        invariant
            t <= details.tracks@.len(),
            result@.len() == t,
            forall|u: int| 0 <= u < t ==> packs_row(*details, u, #[trigger] result@[u]),
        decreases details.tracks@.len() - t,
    {
        let order = row_event_order(details, t);
        let mut lane_ends: Vec<u64> = Vec::new();
        let mut events: Vec<PackedEvent> = Vec::new();
        let mut k: usize = 0;
        while k < order.len()
            invariant
                k <= order@.len(),
                forall|m: int| 0 <= m < order@.len() ==> order@[m] < details.events@.len(),
                events@.len() == k,
                forall|m: int| 0 <= m < k ==> #[trigger] events@[m].event_index == order@[m],
                forall|m: int| 0 <= m < k ==> #[trigger] events@[m].lane == lane_of(details.events@, order@, m),
                lane_ends@ == lane_ends_after(details.events@, order@.take(k as int)),
            decreases order@.len() - k,
        {
            let event = &details.events[order[k]];
            let mut lane: usize = 0;
            while lane < lane_ends.len() && lane_ends[lane] > event.start_frame
                invariant
                    lane <= lane_ends@.len(),
                    forall|l: int| 0 <= l < lane ==> lane_ends@[l] > event.start_frame,
                decreases lane_ends@.len() - lane,
            {
                lane = lane + 1;
            }
            proof {
                lemma_first_free_lane_unique(lane_ends@, event.start_frame, lane as int);
                assert(order@.take(k + 1).drop_last() =~= order@.take(k as int));
                assert(order@.take(k + 1).last() == order@[k as int]);
            }
            if lane < lane_ends.len() {
                lane_ends.set(lane, event.end_frame);
            } else {
                lane_ends.push(event.end_frame);
            }
            events.push(PackedEvent { event_index: order[k], lane });
            k = k + 1;
        }
        proof {
            assert(order@.take(order@.len() as int) =~= order@);
            assert(events@.map_values(|e: PackedEvent| e.event_index) =~= order@);
        }
        let lane_count = if lane_ends.len() == 0 { 1 } else { lane_ends.len() };
        result.push(PackedTrack { track_id: details.tracks[t].id, lane_count, events });
        t = t + 1;
    }
    result
}

/// Event `k` of `order` is the latest of the first `n` events that went to lane `lane`.
pub open spec fn last_in_lane(events: Seq<CompositeEventDetails>, order: Seq<usize>, n: int, k: int, lane: nat) -> bool {
    &&& 0 <= k < n
    &&& lane_of(events, order, k) == lane
    &&& forall|m: int| k < m < n ==> lane_of(events, order, m) != lane
}

/// Lane `lane` holds one of the first `n` events and ends where its latest such event ends.
spec fn lane_has_last(events: Seq<CompositeEventDetails>, order: Seq<usize>, n: int, lane: int) -> bool {
    exists|k: int| #[trigger] last_in_lane(events, order, n, k, lane as nat)
        && lane_ends_after(events, order.take(n))[lane] == events[order[k] as int].end_frame
}

/// The invariant of first-fit placement after the first `n` events.
spec fn lanes_consistent(events: Seq<CompositeEventDetails>, order: Seq<usize>, n: int) -> bool {
    let ends = lane_ends_after(events, order.take(n));
    &&& forall|k: int| 0 <= k < n ==> #[trigger] lane_of(events, order, k) < ends.len()
    &&& forall|lane: int| 0 <= lane < ends.len() ==> #[trigger] lane_has_last(events, order, n, lane)
    &&& forall|a: int, b: int| 0 <= a < b < n && lane_of(events, order, a) == lane_of(events, order, b)
        ==> events[order[a] as int].end_frame <= events[order[b] as int].start_frame
}

proof fn lemma_lanes_consistent(events: Seq<CompositeEventDetails>, order: Seq<usize>, n: int)
    requires
        0 <= n <= order.len(),
        forall|k: int| 0 <= k < order.len() ==> order[k] < events.len(),
        forall|a: int, b: int| 0 <= a < b < order.len() ==> events[order[a] as int].start_frame <= events[order[b] as int].start_frame,
    ensures
        lanes_consistent(events, order, n),
    decreases n,
{
    if n == 0 {
        assert(order.take(0) =~= Seq::<usize>::empty());
    } else {
        let m = n - 1;
        lemma_lanes_consistent(events, order, m);
        let prev = lane_ends_after(events, order.take(m));
        let e = events[order[m] as int];
        assert(order.take(n).drop_last() =~= order.take(m));
        assert(order.take(n).last() == order[m]);
        let ends = lane_ends_after(events, order.take(n));
        assert(ends == place_event(prev, e.start_frame, e.end_frame));
        let f = first_free_lane(prev, e.start_frame);
        assert(lane_of(events, order, m) == f);
        lemma_first_free_lane(prev, e.start_frame);
        assert forall|k: int| 0 <= k < n implies #[trigger] lane_of(events, order, k) < ends.len() by {
            if k < m {
                assert(lane_of(events, order, k) < prev.len());
            }
        }
        assert forall|lane: int| 0 <= lane < ends.len() implies #[trigger] lane_has_last(events, order, n, lane) by {
            if lane == f {
                assert(last_in_lane(events, order, n, m, lane as nat));
            } else {
                assert(lane_has_last(events, order, m, lane));
                let k = choose|k: int| #[trigger] last_in_lane(events, order, m, k, lane as nat)
                    && prev[lane] == events[order[k] as int].end_frame;
                assert(last_in_lane(events, order, n, k, lane as nat));
            }
        }
        assert forall|a: int, b: int| 0 <= a < b < n && lane_of(events, order, a) == lane_of(events, order, b)
            implies events[order[a] as int].end_frame <= events[order[b] as int].start_frame by {
            if b == m {
                assert(lane_of(events, order, a) < prev.len());
                let lane = f as int;
                assert(lane_has_last(events, order, m, lane));
                let k = choose|k: int| #[trigger] last_in_lane(events, order, m, k, lane as nat)
                    && prev[lane] == events[order[k] as int].end_frame;
                if a != k {
                    assert(a < k);
                    assert(events[order[a] as int].end_frame <= events[order[k] as int].start_frame);
                    assert(events[order[k] as int].start_frame <= events[order[m] as int].start_frame);
                }
            }
        }
    }
}

/// Law: two events that `pack_swimlanes` puts in the same lane of a track do not overlap;
/// the one laid out first ends no later than the other starts.
pub proof fn lemma_lanes_do_not_overlap(details: CompositeDetails, t: int, packed: PackedTrack)
    requires
        0 <= t < details.tracks@.len(),
        packs_row(details, t, packed),
    ensures
        forall|a: int, b: int| 0 <= a < b < packed.events@.len() && packed.events@[a].lane == packed.events@[b].lane
            ==> details.events@[packed.events@[a].event_index as int].end_frame
                <= details.events@[packed.events@[b].event_index as int].start_frame,
{
    let order = packed.events@.map_values(|e: PackedEvent| e.event_index);
    assert forall|k: int| 0 <= k < order.len() implies order[k] < details.events@.len() by {
        let x = order[k] as int;
        assert(order.contains(order[k]));
        assert(event_in_row(details, t, x));
    }
    assert forall|a: int, b: int| 0 <= a < b < order.len() implies
        details.events@[order[a] as int].start_frame <= details.events@[order[b] as int].start_frame by {
        assert(event_key_less(details.events@, order[a] as int, order[b] as int));
    }
    lemma_lanes_consistent(details.events@, order, order.len() as int);
    assert forall|a: int, b: int| 0 <= a < b < packed.events@.len() && packed.events@[a].lane == packed.events@[b].lane
        implies details.events@[packed.events@[a].event_index as int].end_frame
            <= details.events@[packed.events@[b].event_index as int].start_frame by {
        assert(packed.events@[a].lane == lane_of(details.events@, order, a));
        assert(packed.events@[b].lane == lane_of(details.events@, order, b));
    }
}

/// The event indices of a packed row, in layout order.
pub open spec fn packed_order(packed: PackedTrack) -> Seq<usize> {
    packed.events@.map_values(|e: PackedEvent| e.event_index)
}

/// The events at positions `ks` of `order` cannot share lanes: of any two, the one laid out
/// first ends after the other starts.
pub open spec fn pairwise_conflicting(events: Seq<CompositeEventDetails>, order: Seq<usize>, ks: Seq<int>) -> bool {
    &&& forall|i: int| 0 <= i < ks.len() ==> 0 <= #[trigger] ks[i] < order.len()
    &&& forall|i: int, j: int| 0 <= i < ks.len() && 0 <= j < ks.len() && i != j ==> ks[i] != ks[j]
    &&& forall|i: int, j: int|
        0 <= i < ks.len() && 0 <= j < ks.len() && ks[i] < ks[j] ==> events[order[ks[i]] as int].end_frame
            > events[order[ks[j]] as int].start_frame
}

/// Placing one more event keeps the lanes or opens one, and opens one exactly when no lane is
/// free at its start.
proof fn lemma_place_event_len(ends: Seq<u64>, start: u64, end: u64)
    ensures
        place_event(ends, start, end).len() == ends.len() + if first_free_lane(ends, start) == ends.len() {
            1int
        } else {
            0int
        },
{
    lemma_first_free_lane(ends, start);
}

/// Some event opened the lane that made the count `lanes`.
proof fn lemma_lane_opened(events: Seq<CompositeEventDetails>, order: Seq<usize>, n: int, lanes: int)
    requires
        0 <= n <= order.len(),
        1 <= lanes <= lane_ends_after(events, order.take(n)).len(),
    ensures
        exists|m: int|
            0 <= m < n && #[trigger] lane_ends_after(events, order.take(m)).len() == lanes - 1 && first_free_lane(
                lane_ends_after(events, order.take(m)),
                events[order[m] as int].start_frame,
            ) == lanes - 1,
    decreases n,
{
    if n == 0 {
        assert(order.take(0) =~= Seq::<usize>::empty());
    } else {
        let m = n - 1;
        assert(order.take(n).drop_last() =~= order.take(m));
        assert(order.take(n).last() == order[m]);
        let prev = lane_ends_after(events, order.take(m));
        let e = events[order[m] as int];
        lemma_place_event_len(prev, e.start_frame, e.end_frame);
        if prev.len() >= lanes {
            lemma_lane_opened(events, order, m, lanes);
        } else {
            assert(lane_ends_after(events, order.take(m)).len() == lanes - 1);
        }
    }
}

proof fn lemma_first_fit_clique(events: Seq<CompositeEventDetails>, order: Seq<usize>)
    requires
        forall|k: int| 0 <= k < order.len() ==> order[k] < events.len(),
        forall|a: int, b: int| 0 <= a < b < order.len() ==> events[order[a] as int].start_frame <= events[order[b] as int].start_frame,
        lane_ends_after(events, order).len() >= 1,
    ensures
        exists|ks: Seq<int>| ks.len() == lane_ends_after(events, order).len() && #[trigger] pairwise_conflicting(events, order, ks),
{
    let lanes = lane_ends_after(events, order).len() as int;
    assert(order.take(order.len() as int) =~= order);
    lemma_lane_opened(events, order, order.len() as int, lanes);
    let m = choose|m: int|
        0 <= m < order.len() && #[trigger] lane_ends_after(events, order.take(m)).len() == lanes - 1 && first_free_lane(
            lane_ends_after(events, order.take(m)),
            events[order[m] as int].start_frame,
        ) == lanes - 1;
    let prev = lane_ends_after(events, order.take(m));
    let start = events[order[m] as int].start_frame;
    lemma_first_free_lane(prev, start);
    lemma_lanes_consistent(events, order, m);
    let ks = Seq::new(lanes as nat, |i: int| if i < lanes - 1 {
        choose|k: int| #[trigger] last_in_lane(events, order, m, k, i as nat) && prev[i] == events[order[k] as int].end_frame
    } else {
        m
    });
    assert forall|i: int| 0 <= i < lanes - 1 implies #[trigger] last_in_lane(events, order, m, ks[i], i as nat)
        && prev[i] == events[order[ks[i]] as int].end_frame by {
        assert(lane_has_last(events, order, m, i));
    }
    assert forall|i: int| 0 <= i < ks.len() implies 0 <= #[trigger] ks[i] < order.len() by {
        if i < lanes - 1 {
            assert(last_in_lane(events, order, m, ks[i], i as nat));
        }
    }
    assert forall|i: int, j: int| 0 <= i < ks.len() && 0 <= j < ks.len() && i != j implies ks[i] != ks[j] by {
        if i < lanes - 1 {
            assert(last_in_lane(events, order, m, ks[i], i as nat));
        }
        if j < lanes - 1 {
            assert(last_in_lane(events, order, m, ks[j], j as nat));
        }
    }
    assert forall|i: int, j: int| 0 <= i < ks.len() && 0 <= j < ks.len() && ks[i] < ks[j] implies events[order[ks[i]] as int].end_frame
        > events[order[ks[j]] as int].start_frame by {
        if i < lanes - 1 {
            assert(last_in_lane(events, order, m, ks[i], i as nat));
            assert(prev[i] > start);
        } else {
            assert(ks[i] == m);
            assert(j < lanes - 1);
            assert(last_in_lane(events, order, m, ks[j], j as nat));
        }
        if j < lanes - 1 {
            assert(last_in_lane(events, order, m, ks[j], j as nat));
            assert(events[order[ks[j]] as int].start_frame <= start);
        }
    }
    assert(pairwise_conflicting(events, order, ks));
}

/// Law: `pack_swimlanes` opens no lane it does not need. A track row with events gets as many
/// lanes as it has events of which any two, laid out one after the other, overlap; so no
/// layout in this order that keeps overlapping events apart does with fewer lanes.
pub proof fn lemma_lane_count_is_needed(details: CompositeDetails, t: int, packed: PackedTrack)
    requires
        0 <= t < details.tracks@.len(),
        packs_row(details, t, packed),
        packed.events@.len() > 0,
    ensures
        exists|ks: Seq<int>|
            ks.len() == packed.lane_count && #[trigger] pairwise_conflicting(details.events@, packed_order(packed), ks),
{
    let order = packed_order(packed);
    assert forall|k: int| 0 <= k < order.len() implies order[k] < details.events@.len() by {
        let x = order[k] as int;
        assert(order.contains(order[k]));
        assert(event_in_row(details, t, x));
    }
    assert forall|a: int, b: int| 0 <= a < b < order.len() implies
        details.events@[order[a] as int].start_frame <= details.events@[order[b] as int].start_frame by {
        assert(event_key_less(details.events@, order[a] as int, order[b] as int));
    }
    lemma_lanes_consistent(details.events@, order, order.len() as int);
    assert(order.take(order.len() as int) =~= order);
    assert(lane_of(details.events@, order, 0) < lane_ends_after(details.events@, order).len());
    lemma_first_fit_clique(details.events@, order);
}

/// Number of whole sync cycles that the timeline spans, rounding up; at least one.
pub fn timeline_cycles(details: &CompositeDetails) -> (r: u64)
    ensures
        ({
            let cycle = if details.cycle_length_frames == 0 { 1 } else { details.cycle_length_frames as int };
            let length = if details.timeline_length_frames == 0 { 1 } else { details.timeline_length_frames as int };
            r == length / cycle + if length % cycle == 0 { 0int } else { 1int }
        }),
        r >= 1,
{
    let cycle = if details.cycle_length_frames == 0 { 1 } else { details.cycle_length_frames };
    let length = if details.timeline_length_frames == 0 { 1 } else { details.timeline_length_frames };
    let whole = length / cycle;
    proof {
        assert(length == cycle * (length / cycle) + length % cycle) by (nonlinear_arith)
            requires cycle >= 1;
        assert(length % cycle == 0 ==> length / cycle >= 1) by (nonlinear_arith)
            requires cycle >= 1, length >= 1, length == cycle * (length / cycle) + length % cycle;
        assert(length % cycle != 0 ==> length / cycle < u64::MAX) by (nonlinear_arith)
            requires cycle >= 1, length >= 1, length <= u64::MAX, length % cycle < cycle,
                length == cycle * (length / cycle) + length % cycle;
    }
    if length % cycle == 0 {
        whole
    } else {
        whole + 1
    }
}

/// The menu label of a script event's mode name.
pub open spec fn spec_script_mode_label(mode: Option<Seq<char>>) -> Seq<char> {
    match mode {
        Some(m) => if m == "playing"@ { "Play"@ }
            else if m == "recording"@ { "Record"@ }
            else if m == "replacing"@ { "Replace"@ }
            else if m == "playing_dry_through_wet"@ { "Play dry/wet"@ }
            else if m == "recording_dry_into_wet"@ { "Record dry/wet"@ }
            else if m == "stopped"@ { "Stop"@ }
            else { "Unknown"@ },
        None => "Unknown"@,
    }
}

/// The menu label of a script event's mode name.
pub fn script_mode_label(mode: Option<&str>) -> (r: &'static str)
    ensures
        r@ == spec_script_mode_label(match mode {
            Some(m) => Some(m@),
            None => None,
        }),
{
    match mode {
        Some(m) => {
            if crate::text::str_equal(m, "playing") {
                "Play"
            } else if crate::text::str_equal(m, "recording") {
                "Record"
            } else if crate::text::str_equal(m, "replacing") {
                "Replace"
            } else if crate::text::str_equal(m, "playing_dry_through_wet") {
                "Play dry/wet"
            } else if crate::text::str_equal(m, "recording_dry_into_wet") {
                "Record dry/wet"
            } else if crate::text::str_equal(m, "stopped") {
                "Stop"
            } else {
                "Unknown"
            }
        },
        None => "Unknown",
    }
}

/// The mode name that script events store for `mode`.
pub fn script_mode_key(mode: LoopMode) -> (r: &'static str)
    ensures
        r@ == match mode {
            LoopMode::Playing => "playing"@,
            LoopMode::Recording => "recording"@,
            LoopMode::Replacing => "replacing"@,
            LoopMode::PlayingDryThroughWet => "playing_dry_through_wet"@,
            LoopMode::RecordingDryIntoWet => "recording_dry_into_wet"@,
            LoopMode::Stopped => "stopped"@,
            LoopMode::Unknown => "unknown"@,
        },
{
    match mode {
        LoopMode::Playing => "playing",
        LoopMode::Recording => "recording",
        LoopMode::Replacing => "replacing",
        LoopMode::PlayingDryThroughWet => "playing_dry_through_wet",
        LoopMode::RecordingDryIntoWet => "recording_dry_into_wet",
        LoopMode::Stopped => "stopped",
        LoopMode::Unknown => "unknown",
    }
}

/// The variant name of a loop mode.
pub open spec fn loop_mode_text(mode: LoopMode) -> Seq<char> {
    match mode {
        LoopMode::Unknown => "Unknown"@,
        LoopMode::Stopped => "Stopped"@,
        LoopMode::Playing => "Playing"@,
        LoopMode::Recording => "Recording"@,
        LoopMode::Replacing => "Replacing"@,
        LoopMode::PlayingDryThroughWet => "PlayingDryThroughWet"@,
        LoopMode::RecordingDryIntoWet => "RecordingDryIntoWet"@,
    }
}

impl LoopMode {
    /// The variant name, as `{:?}` writes it.
    pub fn name(self) -> (r: &'static str)
        ensures
            r@ == loop_mode_text(self),
    {
        match self {
            LoopMode::Unknown => "Unknown",
            LoopMode::Stopped => "Stopped",
            LoopMode::Playing => "Playing",
            LoopMode::Recording => "Recording",
            LoopMode::Replacing => "Replacing",
            LoopMode::PlayingDryThroughWet => "PlayingDryThroughWet",
            LoopMode::RecordingDryIntoWet => "RecordingDryIntoWet",
        }
    }
}

/// The number of cycles that an event spans, rounded up and at least one, as a `u32` (the
/// largest one when it does not fit).
pub open spec fn natural_cycles(event: CompositeEventDetails, cycle_length_frames: u64) -> u32 {
    let cycle: int = if cycle_length_frames == 0 { 1 } else { cycle_length_frames as int };
    let span: int = if event.end_frame >= event.start_frame { event.end_frame - event.start_frame } else { 0 };
    let cycles: int = (span + cycle - 1) / cycle;
    let at_least_one: int = if cycles < 1 { 1 } else { cycles };
    if at_least_one > u32::MAX { u32::MAX } else { at_least_one as u32 }
}

/// The length that the event menu offers to force: the forced length, else the natural one.
pub fn initial_force_length(event: &CompositeEventDetails, cycle_length_frames: u64) -> (r: u32)
    ensures
        r == match event.forced_n_cycles {
            Some(n) => n,
            None => natural_cycles(*event, cycle_length_frames),
        },
{
    match event.forced_n_cycles {
        Some(n) => n,
        None => {
            let cycle: u64 = if cycle_length_frames == 0 { 1 } else { cycle_length_frames };
            let span: u64 = event.end_frame.saturating_sub(event.start_frame);
            let whole: u64 = span / cycle;
            let cycles: u64 = if span % cycle == 0 {
                whole
            } else {
                proof {
                    assert(cycle >= 2);
                    assert(whole <= span / 2) by (nonlinear_arith)
                        requires cycle >= 2, whole == span / cycle;
                }
                whole + 1
            };
            proof {
                let c = cycle as int;
                let s = span as int;
                assert(((s + c - 1) / c) == (if s % c == 0 { s / c } else { s / c + 1 })) by (nonlinear_arith)
                    requires c >= 1, s >= 0;
            }
            let at_least_one: u64 = if cycles < 1 { 1 } else { cycles };
            if at_least_one > u32::MAX as u64 {
                u32::MAX
            } else {
                at_least_one as u32
            }
        },
    }
}

/// The text on an event block: the loop's name, and for script composites also the mode that
/// the event sets.
pub open spec fn spec_event_label(kind: CompositeKind, event: CompositeEventDetails) -> Seq<char> {
    if kind == CompositeKind::Script {
        event.loop_name@ + " · "@ + spec_script_mode_label(match event.mode {
            Some(m) => Some(m@),
            None => None,
        })
    } else {
        event.loop_name@
    }
}

pub fn event_label(kind: CompositeKind, event: &CompositeEventDetails) -> (r: String)
    ensures
        r@ == spec_event_label(kind, *event),
{
    let mut label = event.loop_name.clone();
    if kind == CompositeKind::Script {
        label.append(" · ");
        let mode = match &event.mode {
            Some(m) => Some(m.as_str()),
            None => None,
        };
        label.append(script_mode_label(mode));
    }
    label
}

} // verus!
