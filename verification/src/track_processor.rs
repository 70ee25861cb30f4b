//! The processors that a dry/wet track can run, and how the add-track form follows them.

use vstd::prelude::*;

use crate::settings::{AddTrackMode, NewTrackConfiguration, TrackProcessorTypeId};
use crate::text::str_equal;

verus! {

/// What a processor does with MIDI on the dry side of a dry/wet track.
#[derive(Clone, Copy, Debug, PartialEq, Eq, Structural, Hash)]
pub enum TrackProcessorMidiPolicy {
    Required,
    Optional,
    Unsupported,
}

/// A processor that the add-track form offers.
#[derive(Clone, Debug, PartialEq, Eq)]
pub struct TrackProcessorDescriptor {
    pub id: TrackProcessorTypeId,
    pub available: bool,
    pub midi: TrackProcessorMidiPolicy,
}

/// `i` is the first available processor of `ps`.
pub open spec fn first_available_at(ps: Seq<TrackProcessorDescriptor>, i: int) -> bool {
    &&& 0 <= i < ps.len()
    &&& ps[i].available
    &&& forall|j: int| 0 <= j < i ==> !(#[trigger] ps[j]).available
}

/// `i` is the first processor of `ps` whose identity reads `id`.
pub open spec fn first_with_id_at(ps: Seq<TrackProcessorDescriptor>, id: Seq<char>, i: int) -> bool {
    &&& 0 <= i < ps.len()
    &&& ps[i].id.0@ == id
    &&& forall|j: int| 0 <= j < i ==> (#[trigger] ps[j]).id.0@ != id
}

/// Some processor of `ps` is available.
pub open spec fn some_available(ps: Seq<TrackProcessorDescriptor>) -> bool {
    exists|i: int| 0 <= i < ps.len() && (#[trigger] ps[i]).available
}

/// Some processor of `ps` has the identity `id`.
pub open spec fn some_with_id(ps: Seq<TrackProcessorDescriptor>, id: Seq<char>) -> bool {
    exists|i: int| 0 <= i < ps.len() && (#[trigger] ps[i]).id.0@ == id
}

/// Some available processor of `ps` has the identity `id`.
pub open spec fn available_with_id(ps: Seq<TrackProcessorDescriptor>, id: Seq<char>) -> bool {
    exists|i: int| 0 <= i < ps.len() && (#[trigger] ps[i]).available && ps[i].id.0@ == id
}

/// The first available processor.
pub open spec fn first_available(ps: Seq<TrackProcessorDescriptor>) -> Option<TrackProcessorDescriptor> {
    if some_available(ps) {
        Some(ps[choose|i: int| first_available_at(ps, i)])
    } else {
        None
    }
}

/// The first processor with the identity `id`, available or not.
pub open spec fn first_with_id(ps: Seq<TrackProcessorDescriptor>, id: Seq<char>) -> Option<TrackProcessorDescriptor> {
    if some_with_id(ps, id) {
        Some(ps[choose|i: int| first_with_id_at(ps, id, i)])
    } else {
        None
    }
}

/// The processor that a dry/wet track gets: the chosen one while it is available, else the
/// first available one, else none. Other modes keep the choice as it is.
pub open spec fn reconciled_processor(config: NewTrackConfiguration, ps: Seq<TrackProcessorDescriptor>) -> Option<
    TrackProcessorTypeId,
> {
    let keep = match config.processor {
        Some(p) => available_with_id(ps, p.0@),
        None => false,
    };
    if config.mode == AddTrackMode::DryWet && !keep {
        match first_available(ps) {
            Some(d) => Some(d.id),
            None => None,
        }
    } else {
        config.processor
    }
}

/// The processor that the form shows for a choice: the first one with its identity.
pub open spec fn selected_processor(processor: Option<TrackProcessorTypeId>, ps: Seq<TrackProcessorDescriptor>) -> Option<
    TrackProcessorDescriptor,
> {
    match processor {
        Some(p) => first_with_id(ps, p.0@),
        None => None,
    }
}

/// The MIDI policy of the shown processor; without one, MIDI is unsupported.
pub open spec fn midi_policy(selected: Option<TrackProcessorDescriptor>) -> TrackProcessorMidiPolicy {
    match selected {
        Some(d) => d.midi,
        None => TrackProcessorMidiPolicy::Unsupported,
    }
}

/// Dry MIDI of a dry/wet track with a shown processor follows a required or unsupported
/// policy; an optional policy, or any other case, leaves it as it is.
pub open spec fn reconciled_dry_midi(mode: AddTrackMode, dry_midi: bool, selected: Option<TrackProcessorDescriptor>) -> bool {
    if mode == AddTrackMode::DryWet && selected is Some {
        match selected->0.midi {
            TrackProcessorMidiPolicy::Required => true,
            TrackProcessorMidiPolicy::Unsupported => false,
            TrackProcessorMidiPolicy::Optional => dry_midi,
        }
    } else {
        dry_midi
    }
}

/// The MIDI row of the form: whether it applies, the value that its checkbox shows, and
/// whether the checkbox can be changed.
pub open spec fn spec_midi_control(config: NewTrackConfiguration, ps: Seq<TrackProcessorDescriptor>) -> (bool, bool, bool) {
    let policy = midi_policy(selected_processor(config.processor, ps));
    match config.mode {
        AddTrackMode::Regular => (true, config.midi, true),
        AddTrackMode::Trigger => (false, false, false),
        AddTrackMode::DryWet => (
            policy != TrackProcessorMidiPolicy::Unsupported,
            config.dry_midi,
            policy == TrackProcessorMidiPolicy::Optional,
        ),
    }
}

proof fn lemma_first_available_unique(ps: Seq<TrackProcessorDescriptor>, i: int)
    requires
        first_available_at(ps, i),
    ensures
        first_available(ps) == Some(ps[i]),
{
    assert(some_available(ps)) by {
        assert(ps[i].available);
    }
    let c = choose|c: int| first_available_at(ps, c);
    assert(first_available_at(ps, c));
    if c < i {
        assert(!ps[c].available);
    }
    if i < c {
        assert(!ps[i].available);
    }
}

proof fn lemma_first_with_id_unique(ps: Seq<TrackProcessorDescriptor>, id: Seq<char>, i: int)
    requires
        first_with_id_at(ps, id, i),
    ensures
        first_with_id(ps, id) == Some(ps[i]),
{
    assert(some_with_id(ps, id)) by {
        assert(ps[i].id.0@ == id);
    }
    let c = choose|c: int| first_with_id_at(ps, id, c);
    assert(first_with_id_at(ps, id, c));
    if c < i {
        assert(ps[c].id.0@ != id);
    }
    if i < c {
        assert(ps[i].id.0@ != id);
    }
}

/// The index of the first available processor.
fn find_available(ps: &Vec<TrackProcessorDescriptor>) -> (r: Option<usize>)
    ensures
        match r {
            Some(i) => first_available_at(ps@, i as int),
            None => !some_available(ps@),
        },
{
    let mut i: usize = 0;
    while i < ps.len()
        invariant
            i <= ps@.len(),
            forall|j: int| 0 <= j < i ==> !(#[trigger] ps@[j]).available,
        decreases ps@.len() - i,
    {
        if ps[i].available {
            return Some(i);
        }
        i = i + 1;
    }
    None
}

/// The index of the first processor with the identity `id`.
fn find_with_id(ps: &Vec<TrackProcessorDescriptor>, id: &str) -> (r: Option<usize>)
    ensures
        match r {
            Some(i) => first_with_id_at(ps@, id@, i as int),
            None => !some_with_id(ps@, id@),
        },
{
    let mut i: usize = 0;
    while i < ps.len()
        invariant
            i <= ps@.len(),
            forall|j: int| 0 <= j < i ==> (#[trigger] ps@[j]).id.0@ != id@,
        decreases ps@.len() - i,
    {
        if str_equal(ps[i].id.0.as_str(), id) {
            return Some(i);
        }
        i = i + 1;
    }
    None
}

/// Whether an available processor has the identity `id`.
fn find_available_with_id(ps: &Vec<TrackProcessorDescriptor>, id: &str) -> (r: bool)
    ensures
        r == available_with_id(ps@, id@),
{
    let mut i: usize = 0;
    while i < ps.len()
        invariant
            i <= ps@.len(),
            forall|j: int| 0 <= j < i ==> !((#[trigger] ps@[j]).available && ps@[j].id.0@ == id@),
        decreases ps@.len() - i,
    {
        if ps[i].available && str_equal(ps[i].id.0.as_str(), id) {
            return true;
        }
        i = i + 1;
    }
    false
}

/// The processor shown for `processor`, by its index in `ps`.
fn selected_index(processor: &Option<TrackProcessorTypeId>, ps: &Vec<TrackProcessorDescriptor>) -> (r: Option<usize>)
    ensures
        match r {
            Some(i) => i < ps@.len() && selected_processor(*processor, ps@) == Some(ps@[i as int]),
            None => selected_processor(*processor, ps@) is None,
        },
{
    match processor {
        Some(p) => {
            let found = find_with_id(ps, p.0.as_str());
            proof {
                if let Some(i) = found {
                    lemma_first_with_id_unique(ps@, p.0@, i as int);
                }
            }
            found
        },
        None => None,
    }
}

/// Brings the add-track form in line with the processors on offer: a dry/wet track whose
/// processor is missing or unavailable gets the first available one (see
/// `reconciled_processor`), and its dry MIDI follows the shown processor's policy (see
/// `reconciled_dry_midi`). Nothing else changes.
pub fn reconcile_new_track_configuration(configuration: &mut NewTrackConfiguration, processors: &Vec<TrackProcessorDescriptor>)
    ensures
        final(configuration).processor == reconciled_processor(*old(configuration), processors@),
        final(configuration).dry_midi == reconciled_dry_midi(
            old(configuration).mode,
            old(configuration).dry_midi,
            selected_processor(final(configuration).processor, processors@),
        ),
        final(configuration).mode == old(configuration).mode,
        final(configuration).audio_channels == old(configuration).audio_channels,
        final(configuration).midi == old(configuration).midi,
        final(configuration).recording_adjustment == old(configuration).recording_adjustment,
        final(configuration).recording_frames == old(configuration).recording_frames,
        final(configuration).processor_adjustment == old(configuration).processor_adjustment,
        final(configuration).processor_frames == old(configuration).processor_frames,
{
    let keep = match &configuration.processor {
        Some(p) => find_available_with_id(processors, p.0.as_str()),
        None => false,
    };
    if configuration.mode == AddTrackMode::DryWet && !keep {
        match find_available(processors) {
            Some(i) => {
                proof {
                    lemma_first_available_unique(processors@, i as int);
                }
                configuration.processor = Some(TrackProcessorTypeId(processors[i].id.0.clone()));
            },
            None => {
                configuration.processor = None;
            },
        }
    }
    let selected = selected_index(&configuration.processor, processors);
    if configuration.mode == AddTrackMode::DryWet {
        if let Some(i) = selected {
            match processors[i].midi {
                TrackProcessorMidiPolicy::Required => {
                    configuration.dry_midi = true;
                },
                TrackProcessorMidiPolicy::Unsupported => {
                    configuration.dry_midi = false;
                },
                TrackProcessorMidiPolicy::Optional => {},
            }
        }
    }
}

/// The MIDI row of the form for `configuration`: see `spec_midi_control`.
pub fn midi_control(configuration: &NewTrackConfiguration, processors: &Vec<TrackProcessorDescriptor>) -> (r: (bool, bool, bool))
    ensures
        r == spec_midi_control(*configuration, processors@),
{
    let policy = match selected_index(&configuration.processor, processors) {
        Some(i) => processors[i].midi,
        None => TrackProcessorMidiPolicy::Unsupported,
    };
    match configuration.mode {
        AddTrackMode::Regular => (true, configuration.midi, true),
        AddTrackMode::Trigger => (false, false, false),
        AddTrackMode::DryWet => (
            policy != TrackProcessorMidiPolicy::Unsupported,
            configuration.dry_midi,
            policy == TrackProcessorMidiPolicy::Optional,
        ),
    }
}

/// The MIDI checkbox was set to `value`: it writes MIDI of a regular track and dry MIDI of a
/// dry/wet track; a trigger track has no MIDI to write.
pub fn set_midi_checkbox(configuration: &mut NewTrackConfiguration, value: bool)
    ensures
        final(configuration).midi == if old(configuration).mode == AddTrackMode::Regular {
            value
        } else {
            old(configuration).midi
        },
        final(configuration).dry_midi == if old(configuration).mode == AddTrackMode::DryWet {
            value
        } else {
            old(configuration).dry_midi
        },
        final(configuration).mode == old(configuration).mode,
        final(configuration).audio_channels == old(configuration).audio_channels,
        final(configuration).processor == old(configuration).processor,
        final(configuration).recording_adjustment == old(configuration).recording_adjustment,
        final(configuration).recording_frames == old(configuration).recording_frames,
        final(configuration).processor_adjustment == old(configuration).processor_adjustment,
        final(configuration).processor_frames == old(configuration).processor_frames,
{
    match configuration.mode {
        AddTrackMode::Regular => {
            configuration.midi = value;
        },
        AddTrackMode::DryWet => {
            configuration.dry_midi = value;
        },
        AddTrackMode::Trigger => {},
    }
}

} // verus!
