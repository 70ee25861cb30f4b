//! The timeline of the loop details pane: the frame range it shows and the edits its tools make.
use vstd::prelude::*;

use crate::connection::AppIntent;
use crate::ids::LoopId;
use crate::midi_sequence::MidiSequenceChannelState;

verus! {

/// An audio channel of a loop, as the timeline reads it: its sample count in place of the
/// samples.
#[derive(Clone, Copy, Debug, PartialEq, Eq, Structural)]
pub struct WaveformChannelState {
    pub sample_count: u64,
    pub start_offset: i64,
    pub preplay_samples: u64,
    pub loop_length: u64,
}

/// The channels of the loop that the details pane shows.
#[derive(Clone, Debug)]
pub struct LoopDetailsState {
    pub loop_id: LoopId,
    pub channels: Vec<WaveformChannelState>,
    pub midi_channels: Vec<MidiSequenceChannelState>,
}

/// The timeline tools, each moving one boundary of the loop to the clicked frame.
#[derive(Clone, Copy, Debug, PartialEq, Eq, Structural)]
pub enum TimelineEditTool {
    LoopStart,
    PreplayStart,
    LoopEnd,
}

/// `i64::saturating_sub_unsigned`.
pub open spec fn saturating_sub_unsigned(value: i64, amount: u64) -> int {
    if value - amount < i64::MIN {
        i64::MIN as int
    } else {
        value - amount
    }
}

/// `i64::saturating_add_unsigned`.
pub open spec fn saturating_add_unsigned(value: i64, amount: u64) -> int {
    if value + amount > i64::MAX {
        i64::MAX as int
    } else {
        value + amount
    }
}

pub open spec fn min_int(a: int, b: int) -> int {
    if a <= b {
        a
    } else {
        b
    }
}

pub open spec fn max_int(a: int, b: int) -> int {
    if a >= b {
        a
    } else {
        b
    }
}

/// The earliest frame of the audio channels, preplay included; never after frame 0.
pub open spec fn audio_start(channels: Seq<WaveformChannelState>) -> int
    decreases channels.len(),
{
    if channels.len() == 0 {
        0
    } else {
        let c = channels.last();
        min_int(audio_start(channels.drop_last()), saturating_sub_unsigned(c.start_offset, c.preplay_samples))
    }
}

/// The earliest frame of the MIDI channels, preplay included, or `start` if earlier.
pub open spec fn midi_start(channels: Seq<MidiSequenceChannelState>, start: int) -> int
    decreases channels.len(),
{
    if channels.len() == 0 {
        start
    } else {
        let c = channels.last();
        min_int(midi_start(channels.drop_last(), start), saturating_sub_unsigned(c.start_offset, c.preplay_samples))
    }
}

/// The frame after the last audio of the channels: their sample counts and loop ends; at least
/// frame 1.
pub open spec fn audio_end(channels: Seq<WaveformChannelState>) -> int
    decreases channels.len(),
{
    if channels.len() == 0 {
        1
    } else {
        let c = channels.last();
        max_int(
            max_int(audio_end(channels.drop_last()), c.sample_count as int),
            saturating_add_unsigned(c.start_offset, c.loop_length),
        )
    }
}

/// The latest event frame of a MIDI channel, if it has events.
pub open spec fn last_event_frame(events: Seq<crate::midi_sequence::MidiEventState>) -> Option<int>
    decreases events.len(),
{
    if events.len() == 0 {
        None
    } else {
        let frame = events.last().frame as int;
        match last_event_frame(events.drop_last()) {
            Some(f) => Some(max_int(f, frame)),
            None => Some(frame),
        }
    }
}

/// The end of the MIDI channels: their loop ends and latest events, or `end` if later.
pub open spec fn midi_end(channels: Seq<MidiSequenceChannelState>, end: int) -> int
    decreases channels.len(),
{
    if channels.len() == 0 {
        end
    } else {
        let c = channels.last();
        let with_loop = max_int(midi_end(channels.drop_last(), end), saturating_add_unsigned(c.start_offset, c.loop_length));
        match last_event_frame(c.events@) {
            Some(f) => max_int(with_loop, f),
            None => with_loop,
        }
    }
}

/// The frame range that the timeline spans: from the earliest preplay (never after frame 0)
/// to the latest sample, loop end or event (never before frame 1), and at least one frame long.
pub open spec fn timeline_bounds(details: LoopDetailsState) -> (int, int) {
    let start = midi_start(details.midi_channels@, audio_start(details.channels@));
    let end = midi_end(details.midi_channels@, audio_end(details.channels@));
    (start, max_int(end, start + 1))
}

fn sat_sub(value: i64, amount: u64) -> (r: i128)
    ensures
        r == saturating_sub_unsigned(value, amount),
{
    let d: i128 = value as i128 - amount as i128;
    if d < i64::MIN as i128 {
        i64::MIN as i128
    } else {
        d
    }
}

fn sat_add(value: i64, amount: u64) -> (r: i128)
    ensures
        r == saturating_add_unsigned(value, amount),
{
    let s: i128 = value as i128 + amount as i128;
    if s > i64::MAX as i128 {
        i64::MAX as i128
    } else {
        s
    }
}

fn latest_event(events: &Vec<crate::midi_sequence::MidiEventState>) -> (r: Option<u32>)
    ensures
        r matches Some(f) ==> last_event_frame(events@) == Some(f as int),
        r is None ==> last_event_frame(events@) is None,
{
    let mut latest: Option<u32> = None;
    let mut i: usize = 0;
    while i < events.len()
        invariant
            i <= events@.len(),
            latest matches Some(f) ==> last_event_frame(events@.take(i as int)) == Some(f as int),
            latest is None ==> last_event_frame(events@.take(i as int)) is None,
        decreases events@.len() - i,
    {
        proof {
            assert(events@.take(i as int + 1).drop_last() =~= events@.take(i as int));
        }
        let frame = events[i].frame;
        latest = match latest {
            Some(f) => if f >= frame {
                Some(f)
            } else {
                Some(frame)
            },
            None => Some(frame),
        };
        i = i + 1;
    }
    proof {
        assert(events@.take(i as int) =~= events@);
    }
    latest
}

/// The frame range of the timeline (see `timeline_bounds`), as the pane scales it into view.
pub fn media_bounds(details: &LoopDetailsState) -> (r: (i128, i128))
    ensures
        r.0 == timeline_bounds(*details).0,
        r.1 == timeline_bounds(*details).1,
{
    let mut start: i128 = 0;
    let mut end: i128 = 1;
    let mut i: usize = 0;
    while i < details.channels.len()
        invariant
            i <= details.channels@.len(),
            start == audio_start(details.channels@.take(i as int)),
            end == audio_end(details.channels@.take(i as int)),
            i64::MIN <= start <= 0,
            1 <= end <= u64::MAX,
        decreases details.channels@.len() - i,
    {
        proof {
            assert(details.channels@.take(i as int + 1).drop_last() =~= details.channels@.take(i as int));
        }
        let channel = details.channels[i];
        let low = sat_sub(channel.start_offset, channel.preplay_samples);
        if low < start {
            start = low;
        }
        let count = channel.sample_count as i128;
        if count > end {
            end = count;
        }
        let high = sat_add(channel.start_offset, channel.loop_length);
        if high > end {
            end = high;
        }
        i = i + 1;
    }
    proof {
        assert(details.channels@.take(i as int) =~= details.channels@);
    }
    let ghost audio_low = start as int;
    let ghost audio_high = end as int;
    let mut j: usize = 0;
    while j < details.midi_channels.len()
        invariant
            j <= details.midi_channels@.len(),
            start == midi_start(details.midi_channels@.take(j as int), audio_low),
            end == midi_end(details.midi_channels@.take(j as int), audio_high),
            i64::MIN <= start <= 0,
            1 <= end <= u64::MAX,
        decreases details.midi_channels@.len() - j,
    {
        proof {
            assert(details.midi_channels@.take(j as int + 1).drop_last() =~= details.midi_channels@.take(j as int));
        }
        let channel = &details.midi_channels[j];
        let low = sat_sub(channel.start_offset, channel.preplay_samples);
        if low < start {
            start = low;
        }
        let high = sat_add(channel.start_offset, channel.loop_length);
        if high > end {
            end = high;
        }
        match latest_event(&channel.events) {
            Some(frame) => {
                if frame as i128 > end {
                    end = frame as i128;
                }
            },
            None => {},
        }
        j = j + 1;
    }
    proof {
        assert(details.midi_channels@.take(j as int) =~= details.midi_channels@);
    }
    if end < start + 1 {
        end = start + 1;
    }
    (start, end)
}

/// The start offset of the loop: that of its first audio channel, else of its first MIDI
/// channel, else 0.
pub open spec fn current_start(details: LoopDetailsState) -> i64 {
    if details.channels@.len() > 0 {
        details.channels@[0].start_offset
    } else if details.midi_channels@.len() > 0 {
        details.midi_channels@[0].start_offset
    } else {
        0
    }
}

/// A frame count from a signed difference: negative differences give 0, and differences past
/// `i64::MAX` give `i64::MAX`.
pub open spec fn frames_between(from: i64, to: i64) -> u64 {
    let d = to - from;
    if d < 0 {
        0
    } else if d > i64::MAX {
        i64::MAX as u64
    } else {
        d as u64
    }
}

/// The loop-wide timeline edit that a tool makes at a frame: the loop start moves to it, the
/// preplay reaches back to it, or the loop ends at it.
pub fn timeline_edit_intent(details: &LoopDetailsState, tool: TimelineEditTool, frame: i64) -> (r:
    AppIntent)
    ensures
        r == (match tool {
            TimelineEditTool::LoopStart => AppIntent::SetLoopTimeline {
                loop_id: details.loop_id,
                start_offset: Some(frame),
                preplay_samples: None,
                loop_length: None,
            },
            TimelineEditTool::PreplayStart => AppIntent::SetLoopTimeline {
                loop_id: details.loop_id,
                start_offset: None,
                preplay_samples: Some(frames_between(frame, current_start(*details))),
                loop_length: None,
            },
            TimelineEditTool::LoopEnd => AppIntent::SetLoopTimeline {
                loop_id: details.loop_id,
                start_offset: None,
                preplay_samples: None,
                loop_length: Some(frames_between(current_start(*details), frame)),
            },
        }),
{
    let start: i64 = if details.channels.len() > 0 {
        details.channels[0].start_offset
    } else if details.midi_channels.len() > 0 {
        details.midi_channels[0].start_offset
    } else {
        0
    };
    match tool {
        TimelineEditTool::LoopStart => AppIntent::SetLoopTimeline {
            loop_id: details.loop_id,
            start_offset: Some(frame),
            preplay_samples: None,
            loop_length: None,
        },
        TimelineEditTool::PreplayStart => AppIntent::SetLoopTimeline {
            loop_id: details.loop_id,
            start_offset: None,
            preplay_samples: Some(frame_count(start, frame)),
            loop_length: None,
        },
        TimelineEditTool::LoopEnd => AppIntent::SetLoopTimeline {
            loop_id: details.loop_id,
            start_offset: None,
            preplay_samples: None,
            loop_length: Some(frame_count(frame, start)),
        },
    }
}

/// `u64::try_from(to.saturating_sub(from)).unwrap_or(0)`.
fn frame_count(to: i64, from: i64) -> (r: u64)
    ensures
        r == frames_between(from, to),
{
    let d: i128 = to as i128 - from as i128;
    if d < 0 {
        0
    } else if d > i64::MAX as i128 {
        i64::MAX as u64
    } else {
        d as u64
    }
}

} // verus!
