//! The track that the add-track dialog asks for, and the tracks that the piano plays into.
use vstd::prelude::*;

use crate::ids::{PortId, TrackId};
use crate::ports::{ApplicationPortOwner, ApplicationPortState, PortDataType, PortDirection, PortRole};
use crate::settings::{
    trim, trimmed, AddTrackMode, NewTrackConfiguration, ProcessorLatencyAdjustmentState,
    RecordingOffsetAdjustmentState, TrackProcessorTypeId,
};

verus! {

/// The channels of a new track: played directly, or dry into a processor that gives the wet
/// signal.
#[derive(Clone, Debug, PartialEq, Eq)]
pub enum TrackSpecTopology {
    Direct { audio_channels: u32, midi: bool },
    DryWet {
        dry_audio_channels: u32,
        wet_audio_channels: u32,
        dry_midi: bool,
        processor_type: TrackProcessorTypeId,
    },
}

/// The latency compensation of a new track.
#[derive(Clone, Copy, Debug, PartialEq, Eq, Structural)]
pub struct TrackLatencySpec {
    pub adjustment: RecordingOffsetAdjustmentState,
    pub manual_frames: i32,
    pub processor_adjustment: ProcessorLatencyAdjustmentState,
    pub processor_manual_frames: i32,
}

/// A track to create.
#[derive(Clone, Debug, PartialEq, Eq)]
pub struct TrackSpec {
    pub name: String,
    pub topology: TrackSpecTopology,
    pub latency: TrackLatencySpec,
    pub creation_request_id: Option<u64>,
}

/// The layout that the dialog's choices give: a regular track has the chosen channels, a
/// trigger track none, and a dry/wet track the chosen audio channels on both sides around its
/// processor; none when a dry/wet track has no processor.
pub open spec fn spec_topology(config: NewTrackConfiguration) -> Option<TrackSpecTopology> {
    match config.mode {
        AddTrackMode::Regular => Some(
            TrackSpecTopology::Direct { audio_channels: config.audio_channels, midi: config.midi },
        ),
        AddTrackMode::Trigger => Some(TrackSpecTopology::Direct { audio_channels: 0, midi: false }),
        AddTrackMode::DryWet => match config.processor {
            Some(p) => Some(
                TrackSpecTopology::DryWet {
                    dry_audio_channels: config.audio_channels,
                    wet_audio_channels: config.audio_channels,
                    dry_midi: config.dry_midi,
                    processor_type: p,
                },
            ),
            None => None,
        },
    }
}

/// The track that the add-track dialog asks for: its trimmed name, the layout of its choices
/// (see `spec_topology`) and their latency settings; none when a dry/wet track has no
/// processor.
pub fn add_track_spec(name: &str, config: &NewTrackConfiguration) -> (r: Option<TrackSpec>)
    ensures
        match spec_topology(*config) {
            None => r is None,
            Some(topology) => r matches Some(spec) && spec.name@ == trim(name@) && spec.topology
                == topology && spec.latency == (TrackLatencySpec {
                adjustment: config.recording_adjustment,
                manual_frames: config.recording_frames,
                processor_adjustment: config.processor_adjustment,
                processor_manual_frames: config.processor_frames,
            }) && spec.creation_request_id is None,
        },
{
    let topology = match config.mode {
        AddTrackMode::Regular => TrackSpecTopology::Direct {
            audio_channels: config.audio_channels,
            midi: config.midi,
        },
        AddTrackMode::Trigger => TrackSpecTopology::Direct { audio_channels: 0, midi: false },
        AddTrackMode::DryWet => match &config.processor {
            Some(p) => TrackSpecTopology::DryWet {
                dry_audio_channels: config.audio_channels,
                wet_audio_channels: config.audio_channels,
                dry_midi: config.dry_midi,
                processor_type: TrackProcessorTypeId(p.0.clone()),
            },
            None => {
                return None;
            },
        },
    };
    Some(
        TrackSpec {
            name: trimmed(name),
            topology,
            latency: TrackLatencySpec {
                adjustment: config.recording_adjustment,
                manual_frames: config.recording_frames,
                processor_adjustment: config.processor_adjustment,
                processor_manual_frames: config.processor_frames,
            },
            creation_request_id: None,
        },
    )
}

/// What the piano reads of a track.
#[derive(Clone, Debug, PartialEq, Eq)]
pub struct PianoTrack {
    pub id: TrackId,
    pub input_monitoring: bool,
    pub port_ids: Vec<PortId>,
}

/// A MIDI input of the track itself, the kind of port that the piano plays into.
pub open spec fn piano_input(port: ApplicationPortState, track: TrackId) -> bool {
    &&& port.owner matches ApplicationPortOwner::Track { track_id, .. } && track_id == track
    &&& port.data_type == PortDataType::Midi
    &&& port.direction == PortDirection::Input
    &&& port.role == PortRole::MidiInput
}

/// The track monitors its input and one of its ports is such a MIDI input.
pub open spec fn plays_piano(track: PianoTrack, ports: Seq<ApplicationPortState>) -> bool {
    &&& track.input_monitoring
    &&& exists|i: int, j: int|
        0 <= i < track.port_ids@.len() && 0 <= j < ports.len() && #[trigger] ports[j].id
            == #[trigger] track.port_ids@[i] && piano_input(ports[j], track.id)
}

/// The tracks that play what the piano sends, in track order.
pub open spec fn spec_piano_destinations(tracks: Seq<PianoTrack>, ports: Seq<ApplicationPortState>) -> Seq<
    TrackId,
>
    decreases tracks.len(),
{
    if tracks.len() == 0 {
        Seq::empty()
    } else {
        spec_piano_destinations(tracks.drop_last(), ports) + if plays_piano(tracks.last(), ports) {
            seq![tracks.last().id]
        } else {
            Seq::empty()
        }
    }
}

fn track_plays_piano(track: &PianoTrack, ports: &Vec<ApplicationPortState>) -> (r: bool)
    ensures
        r == plays_piano(*track, ports@),
{
    if !track.input_monitoring {
        return false;
    }
    let mut i: usize = 0;
    while i < track.port_ids.len()
        invariant
            i <= track.port_ids@.len(),
            track.input_monitoring,
            forall|a: int, b: int|
                0 <= a < i && 0 <= b < ports@.len() && #[trigger] ports@[b].id
                    == #[trigger] track.port_ids@[a] ==> !piano_input(ports@[b], track.id),
        decreases track.port_ids@.len() - i,
    {
        let port_id = track.port_ids[i];
        let mut j: usize = 0;
        while j < ports.len()
            invariant
                i < track.port_ids@.len(),
                track.input_monitoring,
                j <= ports@.len(),
                port_id == track.port_ids@[i as int],
                forall|b: int|
                    0 <= b < j && #[trigger] ports@[b].id == port_id ==> !piano_input(
                        ports@[b],
                        track.id,
                    ),
            decreases ports@.len() - j,
        {
            let port = &ports[j];
            let owned = match port.owner {
                ApplicationPortOwner::Track { track_id, .. } => track_id == track.id,
                _ => false,
            };
            if port.id == port_id && owned && port.data_type == PortDataType::Midi
                && port.direction == PortDirection::Input && port.role == PortRole::MidiInput {
                proof {
                    assert(piano_input(ports@[j as int], track.id));
                    assert(ports@[j as int].id == track.port_ids@[i as int]);
                    assert(exists|a: int, b: int|
                        0 <= a < track.port_ids@.len() && 0 <= b < ports@.len() && #[trigger] ports@[b].id
                            == #[trigger] track.port_ids@[a] && piano_input(ports@[b], track.id));
                }
                return true;
            }
            j = j + 1;
        }
        i = i + 1;
    }
    false
}

/// The tracks that play what the piano sends (see `plays_piano`), in track order.
pub fn piano_destinations(tracks: &Vec<PianoTrack>, ports: &Vec<ApplicationPortState>) -> (r: Vec<
    TrackId,
>)
    ensures
        r@ == spec_piano_destinations(tracks@, ports@),
{
    let mut out: Vec<TrackId> = Vec::new();
    let mut i: usize = 0;
    while i < tracks.len()
        invariant
            i <= tracks@.len(),
            out@ == spec_piano_destinations(tracks@.take(i as int), ports@),
        decreases tracks@.len() - i,
    {
        proof {
            assert(tracks@.take(i as int + 1).drop_last() =~= tracks@.take(i as int));
        }
        let track = &tracks[i];
        if track_plays_piano(track, ports) {
            out.push(track.id);
        }
        i = i + 1;
        assert(out@ =~= spec_piano_destinations(tracks@.take(i as int), ports@));
    }
    assert(tracks@.take(i as int) =~= tracks@);
    out
}

} // verus!
