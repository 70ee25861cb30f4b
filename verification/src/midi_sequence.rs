//! Note spans of a recorded MIDI sequence.

use std::sync::Arc;

use vstd::prelude::*;

verus! {

/// One recorded MIDI message and the frame at which it occurred.
#[derive(Clone, Debug, PartialEq, Eq)]
pub struct MidiEventState {
    pub frame: u32,
    pub data: Vec<u8>,
}

/// A MIDI channel of a loop, as the details pane shows it.
#[derive(Clone, Debug)]
pub struct MidiSequenceChannelState {
    pub label: String,
    pub events: Arc<Vec<MidiEventState>>,
    pub start_offset: i64,
    pub loop_length: u64,
    pub preplay_samples: u64,
    pub played_sample: Option<i64>,
}

/// A note from its note-on to its note-off (or to the end of the timeline).
#[derive(Clone, Copy, Debug, PartialEq, Eq, Structural)]
pub struct MidiNoteSpan {
    pub start: u32,
    pub end: u32,
    pub note: u8,
    pub channel: u8,
    pub velocity: u8,
}

/// Notes that are held, one first-in-first-out queue of (start frame, velocity) per channel and
/// note number; queue `channel * 128 + note`.
pub type HeldNotes = Seq<Seq<(u32, u8)>>;

/// Number of (channel, note) queues.
pub open spec fn queue_count() -> nat {
    2048
}

/// The frame at which a note started at `start` ends when released at `release`: never before
/// the frame after its start.
pub open spec fn span_end(release: u32, start: u32) -> u32 {
    let after_start: u32 = if start == u32::MAX { u32::MAX } else { (start + 1) as u32 };
    if release >= after_start { release } else { after_start }
}

/// What one MIDI message does to the held notes and the finished spans.
/// A note-on with positive velocity holds a note; a note-off, or a note-on with velocity zero,
/// releases the earliest held note of its channel and note number. Messages shorter than three
/// bytes, with a note number above 127 or of any other kind change nothing.
pub open spec fn track_event(held: HeldNotes, spans: Seq<MidiNoteSpan>, event: MidiEventState) -> (HeldNotes, Seq<MidiNoteSpan>) {
    let data = event.data@;
    if data.len() < 3 || data[1] > 127 {
        (held, spans)
    } else {
        let channel = data[0] % 16;
        let note = data[1];
        let kind = data[0] / 16;
        let q = channel * 128 + note;
        if kind == 9 && data[2] > 0 {
            (held.update(q, held[q].push((event.frame, data[2]))), spans)
        } else if (kind == 8 || kind == 9) && held[q].len() > 0 {
            let (start, velocity) = held[q][0];
            (held.update(q, held[q].drop_first()), spans.push(MidiNoteSpan {
                start,
                end: span_end(event.frame, start),
                note: note as u8,
                channel: channel as u8,
                velocity,
            }))
        } else {
            (held, spans)
        }
    }
}

/// Held notes and finished spans after all of `events`.
pub open spec fn track_events(events: Seq<MidiEventState>) -> (HeldNotes, Seq<MidiNoteSpan>)
    decreases events.len(),
{
    if events.len() == 0 {
        (Seq::new(queue_count(), |q: int| Seq::<(u32, u8)>::empty()), Seq::empty())
    } else {
        let (held, spans) = track_events(events.drop_last());
        track_event(held, spans, events.last())
    }
}

/// Spans of the notes still held in queue `q`, ended at the timeline end.
pub open spec fn open_spans(held: HeldNotes, q: int, timeline_end: u32) -> Seq<MidiNoteSpan> {
    held[q].map_values(|h: (u32, u8)| MidiNoteSpan {
        start: h.0,
        end: span_end(timeline_end, h.0),
        note: (q % 128) as u8,
        channel: (q / 128) as u8,
        velocity: h.1,
    })
}

/// Spans of the notes held in the first `k` queues, in queue order.
pub open spec fn open_spans_upto(held: HeldNotes, k: nat, timeline_end: u32) -> Seq<MidiNoteSpan>
    decreases k,
{
    if k == 0 {
        Seq::empty()
    } else {
        open_spans_upto(held, (k - 1) as nat, timeline_end) + open_spans(held, k - 1, timeline_end)
    }
}

/// All spans before ordering: the released notes in release order, then the notes still held
/// at the end, by channel and note number.
pub open spec fn unordered_spans(events: Seq<MidiEventState>, timeline_end: u32) -> Seq<MidiNoteSpan> {
    let (held, spans) = track_events(events);
    spans + open_spans_upto(held, queue_count(), timeline_end)
}

/// Spans are ordered by start, channel, note and end; equal ones keep their order.
pub open spec fn span_order_less(spans: Seq<MidiNoteSpan>, a: int, b: int) -> bool {
    let x = spans[a];
    let y = spans[b];
    if x.start != y.start {
        x.start < y.start
    } else if x.channel != y.channel {
        x.channel < y.channel
    } else if x.note != y.note {
        x.note < y.note
    } else if x.end != y.end {
        x.end < y.end
    } else {
        a < b
    }
}

/// `result` is `spans` in span order.
pub open spec fn is_span_ordering(spans: Seq<MidiNoteSpan>, result: Seq<MidiNoteSpan>) -> bool {
    exists|order: Seq<usize>| #[trigger] orders_spans(spans, order, result)
}

/// `order` lists every index of `spans` once, in span order, and `result` takes them in that order.
pub open spec fn orders_spans(spans: Seq<MidiNoteSpan>, order: Seq<usize>, result: Seq<MidiNoteSpan>) -> bool {
    &&& order.len() == spans.len()
    &&& forall|i: int| 0 <= i < spans.len() ==> #[trigger] order.contains(i as usize)
    &&& forall|k: int| 0 <= k < order.len() ==> order[k] < spans.len()
    &&& forall|a: int, b: int| 0 <= a < b < order.len() ==> span_order_less(spans, order[a] as int, order[b] as int)
    &&& result.len() == order.len()
    &&& forall|k: int| 0 <= k < order.len() ==> result[k] == spans[order[k] as int]
}

/// Span order is a strict total order on the indices of `spans`.
proof fn lemma_span_order_strict_total(spans: Seq<MidiNoteSpan>, a: int, b: int)
    ensures
        !(span_order_less(spans, a, b) && span_order_less(spans, b, a)),
        a != b ==> span_order_less(spans, a, b) || span_order_less(spans, b, a),
        !span_order_less(spans, a, a),
{
}

/// Span order leaves one way to order the spans.
pub proof fn lemma_span_ordering_unique(spans: Seq<MidiNoteSpan>, r1: Seq<MidiNoteSpan>, r2: Seq<MidiNoteSpan>)
    requires
        is_span_ordering(spans, r1),
        is_span_ordering(spans, r2),
    ensures
        r1 == r2,
{
    let o1 = choose|o: Seq<usize>| #[trigger] orders_spans(spans, o, r1);
    let o2 = choose|o: Seq<usize>| #[trigger] orders_spans(spans, o, r2);
    assert forall|k: int| 0 <= k < o1.len() implies o1[k] == o2[k] by {
        lemma_orders_agree_at(spans, o1, r1, o2, r2, k);
    }
    assert(r1 =~= r2);
}

proof fn lemma_orders_agree_at(spans: Seq<MidiNoteSpan>, o1: Seq<usize>, r1: Seq<MidiNoteSpan>, o2: Seq<usize>, r2: Seq<MidiNoteSpan>, k: int)
    requires
        orders_spans(spans, o1, r1),
        orders_spans(spans, o2, r2),
        0 <= k < o1.len(),
    ensures
        o1[k] == o2[k],
    decreases k,
{
    if k > 0 {
        lemma_orders_agree_at(spans, o1, r1, o2, r2, k - 1);
    }
    assert forall|j: int| 0 <= j < k implies o1[j] == o2[j] by {
        if j < k - 1 {
            lemma_orders_agree_at(spans, o1, r1, o2, r2, j);
        }
    }
    let a = o1[k];
    let b = o2[k];
    if a != b {
        lemma_span_order_strict_total(spans, a as int, b as int);
        if span_order_less(spans, a as int, b as int) {
            assert(o1[k] < spans.len());
            assert(o2.contains((a as int) as usize));
            let j = choose|j: int| 0 <= j < o2.len() && o2[j] == a;
            if j < k {
                assert(o1[j] == a);
                lemma_span_order_strict_total(spans, a as int, a as int);
                assert(span_order_less(spans, o1[j] as int, o1[k] as int));
            } else {
                assert(span_order_less(spans, o2[k] as int, o2[j] as int));
            }
        } else {
            assert(o2[k] < spans.len());
            assert(o1.contains((b as int) as usize));
            let j = choose|j: int| 0 <= j < o1.len() && o1[j] == b;
            if j < k {
                assert(o2[j] == b);
                lemma_span_order_strict_total(spans, b as int, b as int);
                assert(span_order_less(spans, o2[j] as int, o2[k] as int));
            } else {
                assert(span_order_less(spans, o1[k] as int, o1[j] as int));
            }
        }
    }
}

fn span_order_less_exec(spans: &Vec<MidiNoteSpan>, a: usize, b: usize) -> (r: bool)
    requires
        a < spans@.len(),
        b < spans@.len(),
    ensures
        r == span_order_less(spans@, a as int, b as int),
{
    let x = spans[a];
    let y = spans[b];
    if x.start != y.start {
        x.start < y.start
    } else if x.channel != y.channel {
        x.channel < y.channel
    } else if x.note != y.note {
        x.note < y.note
    } else if x.end != y.end {
        x.end < y.end
    } else {
        a < b
    }
}

fn exec_span_end(release: u32, start: u32) -> (r: u32)
    ensures
        r == span_end(release, start),
{
    let after_start = if start == u32::MAX { u32::MAX } else { start + 1 };
    if release >= after_start { release } else { after_start }
}

/// The spans in span order.
fn order_spans(spans: &Vec<MidiNoteSpan>) -> (r: Vec<MidiNoteSpan>)
    ensures
        is_span_ordering(spans@, r@),
{
    let n = spans.len();
    let mut order: Vec<usize> = Vec::new();
    let mut i: usize = 0;
    while i < n
        invariant
            n == spans@.len(),
            i <= n,
            order@.len() == i,
            forall|x: int| 0 <= x < i ==> #[trigger] order@.contains(x as usize),
            forall|k: int| 0 <= k < order@.len() ==> order@[k] < i,
            forall|a: int, b: int| 0 <= a < b < order@.len() ==> span_order_less(spans@, order@[a] as int, order@[b] as int),
        decreases n - i,
    {
        let mut pos: usize = 0;
        while pos < order.len() && !span_order_less_exec(spans, i, order[pos])
            invariant
                pos <= order@.len(),
                i < n,
                n == spans@.len(),
                forall|k: int| 0 <= k < order@.len() ==> order@[k] < i,
                forall|k: int| 0 <= k < pos ==> !span_order_less(spans@, i as int, order@[k] as int),
            decreases order@.len() - pos,
        {
            pos = pos + 1;
        }
        let ghost old_order = order@;
        order.insert(pos, i);
        proof {
            assert(order@ == old_order.insert(pos as int, i));
            assert forall|a: int, b: int| 0 <= a < b < order@.len() implies span_order_less(spans@, order@[a] as int, order@[b] as int) by {
                if a < pos && b == pos {
                    assert(!span_order_less(spans@, i as int, old_order[a] as int));
                    assert(old_order[a] < i);
                } else if a == pos && b > pos {
                    assert(span_order_less(spans@, i as int, old_order[pos as int] as int));
                    if b - 1 > pos {
                        assert(span_order_less(spans@, old_order[pos as int] as int, old_order[b - 1] as int));
                    }
                } else if a < pos && b > pos {
                    assert(span_order_less(spans@, old_order[a] as int, old_order[b - 1] as int));
                } else if a > pos {
                    assert(span_order_less(spans@, old_order[a - 1] as int, old_order[b - 1] as int));
                } else {
                    assert(span_order_less(spans@, old_order[a] as int, old_order[b] as int));
                }
            }
            assert forall|x: int| 0 <= x < i + 1 implies #[trigger] order@.contains(x as usize) by {
                if x == i {
                    assert(order@[pos as int] == i);
                } else {
                    assert(old_order.contains(x as usize));
                    let k = choose|k: int| 0 <= k < old_order.len() && old_order[k] == x as usize;
                    if k < pos {
                        assert(order@[k] == x as usize);
                    } else {
                        assert(order@[k + 1] == x as usize);
                    }
                }
            }
            assert forall|k: int| 0 <= k < order@.len() implies order@[k] < i + 1 by {
                if k < pos {
                    assert(order@[k] == old_order[k]);
                } else if k > pos {
                    assert(order@[k] == old_order[k - 1]);
                }
            }
        }
        i = i + 1;
    }
    let mut result: Vec<MidiNoteSpan> = Vec::new();
    let mut k: usize = 0;
    while k < n
        invariant
            n == spans@.len(),
            order@.len() == n,
            k <= n,
            forall|m: int| 0 <= m < order@.len() ==> order@[m] < n,
            result@.len() == k,
            forall|m: int| 0 <= m < k ==> result@[m] == spans@[order@[m] as int],
        decreases n - k,
    {
        result.push(spans[order[k]]);
        k = k + 1;
    }
    proof {
        assert(orders_spans(spans@, order@, result@));
    }
    result
}

/// Pairs note-ons with note-offs into spans, in order of start, channel, note and end.
/// A note-off, or a note-on with velocity zero, ends the earliest held note of its channel and
/// note number; a span never ends before the frame after its start; notes still held at the
/// end run to `timeline_end`.
pub fn note_spans(events: &Vec<MidiEventState>, timeline_end: u32) -> (r: Vec<MidiNoteSpan>)
    ensures
        is_span_ordering(unordered_spans(events@, timeline_end), r@),
{
    let mut held: Vec<Vec<(u32, u8)>> = Vec::new();
    let mut q: usize = 0;
    while q < 2048
        invariant
            q <= 2048,
            held@.len() == q,
            forall|m: int| 0 <= m < q ==> (#[trigger] held@[m])@ == Seq::<(u32, u8)>::empty(),
        decreases 2048 - q,
    {
        held.push(Vec::new());
        q = q + 1;
    }
    let mut spans: Vec<MidiNoteSpan> = Vec::new();
    proof {
        assert(held@.map_values(|v: Vec<(u32, u8)>| v@) =~= track_events(events@.take(0)).0);
        assert(events@.take(0) =~= Seq::<MidiEventState>::empty());
    }
    let mut i: usize = 0;
    while i < events.len()
        invariant
            i <= events@.len(),
            held@.len() == 2048,
            held@.map_values(|v: Vec<(u32, u8)>| v@) == track_events(events@.take(i as int)).0,
            spans@ == track_events(events@.take(i as int)).1,
        decreases events@.len() - i,
    {
        let event = &events[i];
        let ghost before = (held@.map_values(|v: Vec<(u32, u8)>| v@), spans@);
        proof {
            assert(events@.take(i + 1).drop_last() =~= events@.take(i as int));
            assert(events@.take(i + 1).last() == events@[i as int]);
        }
        if event.data.len() >= 3 && event.data[1] <= 127 {
            let channel = event.data[0] % 16;
            let note = event.data[1];
            let kind = event.data[0] / 16;
            let qi = (channel as usize) * 128 + (note as usize);
            if kind == 9 && event.data[2] > 0 {
                let mut queue: Vec<(u32, u8)> = Vec::new();
                std::mem::swap(&mut queue, &mut held[qi]);
                queue.push((event.frame, event.data[2]));
                held.set(qi, queue);
                proof {
                    assert(held@.map_values(|v: Vec<(u32, u8)>| v@) =~= before.0.update(qi as int, before.0[qi as int].push((event.frame, event.data@[2]))));
                }
            } else if (kind == 8 || kind == 9) && held[qi].len() > 0 {
                let mut queue: Vec<(u32, u8)> = Vec::new();
                std::mem::swap(&mut queue, &mut held[qi]);
                let (start, velocity) = queue.remove(0);
                held.set(qi, queue);
                spans.push(MidiNoteSpan {
                    start,
                    end: exec_span_end(event.frame, start),
                    note,
                    channel,
                    velocity,
                });
                proof {
                    assert(held@.map_values(|v: Vec<(u32, u8)>| v@) =~= before.0.update(qi as int, before.0[qi as int].drop_first()));
                }
            }
        }
        i = i + 1;
    }
    let ghost tracked_held = held@.map_values(|v: Vec<(u32, u8)>| v@);
    proof {
        assert(events@.take(events@.len() as int) =~= events@);
    }
    let ghost released = spans@;
    let mut q: usize = 0;
    while q < 2048
        invariant
            q <= 2048,
            held@.len() == 2048,
            held@.map_values(|v: Vec<(u32, u8)>| v@) == tracked_held,
            spans@ == released + open_spans_upto(tracked_held, q as nat, timeline_end),
        decreases 2048 - q,
    {
        let ghost before = spans@;
        let mut k: usize = 0;
        let len = held[q].len();
        while k < len
            invariant
                q < 2048,
                held@.len() == 2048,
                held@.map_values(|v: Vec<(u32, u8)>| v@) == tracked_held,
                len == tracked_held[q as int].len(),
                k <= len,
                spans@ == before + open_spans(tracked_held, q as int, timeline_end).take(k as int),
            decreases len - k,
        {
            let (start, velocity) = held[q][k];
            proof {
                assert(held@[q as int]@ == tracked_held[q as int]);
            }
            spans.push(MidiNoteSpan {
                start,
                end: exec_span_end(timeline_end, start),
                note: (q % 128) as u8,
                channel: (q / 128) as u8,
                velocity,
            });
            k = k + 1;
            proof {
                assert(spans@ =~= before + open_spans(tracked_held, q as int, timeline_end).take(k as int));
            }
        }
        proof {
            assert(open_spans(tracked_held, q as int, timeline_end).take(len as int) =~= open_spans(tracked_held, q as int, timeline_end));
        }
        q = q + 1;
    }
    order_spans(&spans)
}

/// `Arc::ptr_eq`: the two handles share one allocation, and so one value.
/// Nothing is stated when they do not.
#[verifier::external_body]
fn same_allocation(a: &Arc<Vec<MidiEventState>>, b: &Arc<Vec<MidiEventState>>) -> (r: bool)
    ensures
        r ==> *a == *b,
{
    Arc::ptr_eq(a, b)
}

/// `Arc::clone`: a new handle to the same value.
#[verifier::external_body]
fn share(a: &Arc<Vec<MidiEventState>>) -> (r: Arc<Vec<MidiEventState>>)
    ensures
        *r == **a,
{
    Arc::clone(a)
}

/// The last frame of a channel's loop, clamped to the frames that a span can hold.
pub open spec fn channel_timeline_end(channel: MidiSequenceChannelState) -> u32 {
    let end = channel.start_offset + channel.loop_length;
    if end < 0 { 0 } else if end > u32::MAX { u32::MAX } else { end as u32 }
}

/// Draws the notes of a MIDI channel; remembers the spans of the events it last parsed.
#[derive(Debug)]
pub struct MidiSequenceWidget {
    source: Option<Arc<Vec<MidiEventState>>>,
    parsed_timeline_end: u32,
    notes: Vec<MidiNoteSpan>,
}

impl MidiSequenceWidget {
    /// The remembered spans are those of the remembered events.
    #[verifier::type_invariant]
    spec fn spans_match_source(self) -> bool {
        match self.source {
            Some(events) => is_span_ordering(unordered_spans(events@, self.parsed_timeline_end), self.notes@),
            None => self.notes@.len() == 0,
        }
    }

    /// A widget that has parsed nothing yet.
    pub fn new() -> (r: Self)
        ensures
            r.notes()@.len() == 0,
            r.source_events() is None,
    {
        MidiSequenceWidget { source: None, parsed_timeline_end: 0, notes: Vec::new() }
    }

    /// The spans that the widget draws.
    pub closed spec fn notes(self) -> Vec<MidiNoteSpan> {
        self.notes
    }

    /// The events that the widget last parsed, none before the first parse.
    pub closed spec fn source_events(self) -> Option<Seq<MidiEventState>> {
        match self.source {
            Some(events) => Some(events@),
            None => None,
        }
    }

    /// The loop end that the widget last parsed with.
    pub closed spec fn parsed_timeline_end(self) -> u32 {
        self.parsed_timeline_end
    }

    /// The spans that the widget draws.
    pub fn note_spans(&self) -> (r: &Vec<MidiNoteSpan>)
        ensures
            *r == self.notes(),
    {
        &self.notes
    }

    /// Brings the spans up to date with the channel's events and loop end, parsing again only
    /// when either changed. The widget then remembers those events and that end, and a widget
    /// that already remembered them keeps its spans.
    pub fn update_notes(&mut self, channel: &MidiSequenceChannelState)
        ensures
            is_span_ordering(unordered_spans(channel.events@, channel_timeline_end(*channel)), final(self).notes()@),
            final(self).source_events() == Some(channel.events@),
            final(self).parsed_timeline_end() == channel_timeline_end(*channel),
            old(self).source_events() == Some(channel.events@) && old(self).parsed_timeline_end() == channel_timeline_end(*channel)
                ==> final(self).notes()@ == old(self).notes()@,
    {
        proof {
            use_type_invariant(&*self);
        }
        let ghost old_notes = self.notes@;
        let sum: i128 = channel.start_offset as i128 + channel.loop_length as i128;
        let timeline_end: u32 = if sum < 0 {
            0
        } else if sum > u32::MAX as i128 {
            u32::MAX
        } else {
            sum as u32
        };
        let unchanged = match &self.source {
            Some(source) => same_allocation(source, &channel.events) && self.parsed_timeline_end == timeline_end,
            None => false,
        };
        if unchanged {
            return;
        }
        let notes = note_spans(&channel.events, timeline_end);
        proof {
            if self.source_events() == Some(channel.events@) && self.parsed_timeline_end == timeline_end {
                lemma_span_ordering_unique(unordered_spans(channel.events@, timeline_end), notes@, old_notes);
            }
        }
        let source = share(&channel.events);
        *self = MidiSequenceWidget { source: Some(source), parsed_timeline_end: timeline_end, notes };
    }
}

/// A message that starts a note: a note-on of at least three bytes, with a note number up to
/// 127 and a positive velocity.
pub open spec fn starts_note(event: MidiEventState) -> bool {
    let d = event.data@;
    d.len() >= 3 && d[1] <= 127 && d[0] / 16 == 9 && d[2] > 0
}

/// The number of messages that start a note.
pub open spec fn note_starts(events: Seq<MidiEventState>) -> nat
    decreases events.len(),
{
    if events.len() == 0 {
        0
    } else {
        note_starts(events.drop_last()) + if starts_note(events.last()) { 1nat } else { 0nat }
    }
}

/// The number of notes held in the first `k` queues.
pub open spec fn held_total(held: HeldNotes, k: int) -> nat
    decreases k,
{
    if k <= 0 {
        0
    } else {
        held_total(held, k - 1) + held[k - 1].len()
    }
}

proof fn lemma_held_total_update(held: HeldNotes, q: int, queue: Seq<(u32, u8)>, k: int)
    requires
        0 <= q < held.len(),
        0 <= k <= held.len(),
    ensures
        held_total(held.update(q, queue), k) + (if q < k { held[q].len() as int } else { 0 }) == held_total(
            held,
            k,
        ) + (if q < k { queue.len() as int } else { 0 }),
    decreases k,
{
    if k > 0 {
        lemma_held_total_update(held, q, queue, k - 1);
    }
}

proof fn lemma_track_counts(events: Seq<MidiEventState>)
    ensures
        track_events(events).0.len() == queue_count(),
        track_events(events).1.len() + held_total(track_events(events).0, queue_count() as int)
            == note_starts(events),
    decreases events.len(),
{
    if events.len() == 0 {
        let empty = Seq::new(queue_count(), |q: int| Seq::<(u32, u8)>::empty());
        assert forall|k: int| 0 <= k <= queue_count() implies held_total(empty, k) == 0 by {
            lemma_held_total_empty(empty, k);
        }
    } else {
        lemma_track_counts(events.drop_last());
        let (held, spans) = track_events(events.drop_last());
        let event = events.last();
        let d = event.data@;
        if !(d.len() < 3 || d[1] > 127) {
            let q = (d[0] % 16) * 128 + d[1];
            assert(0 <= q < queue_count());
            if d[0] / 16 == 9 && d[2] > 0 {
                lemma_held_total_update(held, q, held[q].push((event.frame, d[2])), queue_count() as int);
            } else if (d[0] / 16 == 8 || d[0] / 16 == 9) && held[q].len() > 0 {
                lemma_held_total_update(held, q, held[q].drop_first(), queue_count() as int);
            }
        }
    }
}

proof fn lemma_held_total_empty(held: HeldNotes, k: int)
    requires
        0 <= k <= held.len(),
        forall|q: int| 0 <= q < held.len() ==> (#[trigger] held[q]).len() == 0,
    ensures
        held_total(held, k) == 0,
    decreases k,
{
    if k > 0 {
        lemma_held_total_empty(held, k - 1);
    }
}

proof fn lemma_open_spans_count(held: HeldNotes, k: nat, timeline_end: u32)
    ensures
        open_spans_upto(held, k, timeline_end).len() == held_total(held, k as int),
    decreases k,
{
    if k > 0 {
        lemma_open_spans_count(held, (k - 1) as nat, timeline_end);
    }
}

/// No note is lost or doubled: every message that starts a note gives exactly one span, ended
/// by its note-off or by the end of the timeline.
pub proof fn lemma_every_started_note_has_one_span(
    events: Seq<MidiEventState>,
    timeline_end: u32,
    spans: Seq<MidiNoteSpan>,
)
    requires
        is_span_ordering(unordered_spans(events, timeline_end), spans),
    ensures
        spans.len() == note_starts(events),
{
    lemma_track_counts(events);
    let (held, finished) = track_events(events);
    lemma_open_spans_count(held, queue_count(), timeline_end);
    let order = choose|order: Seq<usize>| #[trigger] orders_spans(unordered_spans(events, timeline_end), order, spans);
    assert(spans.len() == order.len());
}

/// A message of any kind other than note-off (status `0x8n`) or note-on (status `0x9n`) —
/// a control change such as the sustain pedal, aftertouch, a program change — wherever it
/// stands in the recording, leaves the held notes and the finished spans as they are, and so
/// the spans drawn: only note messages start or end notes.
pub proof fn lemma_other_messages_change_nothing(
    before: Seq<MidiEventState>,
    message: MidiEventState,
    after: Seq<MidiEventState>,
    timeline_end: u32,
)
    requires
        message.data@.len() > 0,
        message.data@[0] / 16 != 8,
        message.data@[0] / 16 != 9,
    ensures
        track_events(before.push(message) + after) == track_events(before + after),
        unordered_spans(before.push(message) + after, timeline_end) == unordered_spans(before + after, timeline_end),
        forall|spans: Seq<MidiNoteSpan>|
            is_span_ordering(unordered_spans(before.push(message) + after, timeline_end), spans)
                <==> is_span_ordering(unordered_spans(before + after, timeline_end), spans),
    decreases after.len(),
{
    if after.len() == 0 {
        assert(before.push(message) + after =~= before.push(message));
        assert(before + after =~= before);
        assert(before.push(message).drop_last() =~= before);
    } else {
        lemma_other_messages_change_nothing(before, message, after.drop_last(), timeline_end);
        assert((before.push(message) + after).drop_last() =~= before.push(message) + after.drop_last());
        assert((before + after).drop_last() =~= before + after.drop_last());
        assert((before.push(message) + after).last() == after.last());
        assert((before + after).last() == after.last());
    }
}

/// A note-off ends the note that its note-on started: when no note of that channel and note
/// number is held, a note-on with positive velocity followed by a note-off of the same
/// channel and note number adds one finished span, from the note-on's frame to the
/// note-off's (at least one frame long), with the note-on's note, channel and velocity, and
/// leaves the held notes as they were.
pub proof fn lemma_note_off_ends_its_note(events: Seq<MidiEventState>, on: MidiEventState, off: MidiEventState)
    requires
        on.data@.len() >= 3,
        off.data@.len() >= 3,
        on.data@[1] <= 127,
        on.data@[0] / 16 == 9,
        on.data@[2] > 0,
        off.data@[0] / 16 == 8,
        off.data@[0] % 16 == on.data@[0] % 16,
        off.data@[1] == on.data@[1],
        track_events(events).0[(on.data@[0] % 16) * 128 + on.data@[1]].len() == 0,
    ensures
        track_events(events.push(on).push(off)).0 == track_events(events).0,
        track_events(events.push(on).push(off)).1 == track_events(events).1.push(
            MidiNoteSpan {
                start: on.frame,
                end: span_end(off.frame, on.frame),
                note: on.data@[1],
                channel: (on.data@[0] % 16) as u8,
                velocity: on.data@[2],
            },
        ),
{
    lemma_track_counts(events);
    let (held, spans) = track_events(events);
    let q = (on.data@[0] % 16) * 128 + on.data@[1];
    assert(events.push(on).drop_last() =~= events);
    assert(events.push(on).push(off).drop_last() =~= events.push(on));
    let held1 = held.update(q, held[q].push((on.frame, on.data@[2])));
    assert(track_events(events.push(on)) == (held1, spans));
    assert(held1[q].len() == 1);
    assert(held1[q].drop_first() =~= held[q]);
    assert(held1.update(q, held1[q].drop_first()) =~= held);
}

} // verus!
