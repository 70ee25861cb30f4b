//! Setting values of the audio drivers and of new tracks, and how they are read and written.

use vstd::prelude::*;

use crate::text::{char_is_whitespace, str_equal, text_chars, text_from_chars, unicode_whitespace};

verus! {

/// An audio driver.
#[derive(Clone, Copy, Debug, PartialEq, Eq, Structural)]
pub enum AudioDriverKind {
    Dummy,
    Jack,
    Cpal,
    WebAudio,
}

/// The setting value that names a driver.
pub open spec fn driver_id(kind: AudioDriverKind) -> Seq<char> {
    match kind {
        AudioDriverKind::Dummy => "dummy"@,
        AudioDriverKind::Jack => "jack"@,
        AudioDriverKind::Cpal => "cpal"@,
        AudioDriverKind::WebAudio => "webaudio"@,
    }
}

impl AudioDriverKind {
    /// The setting value that names the driver.
    pub fn id(self) -> (r: &'static str)
        ensures
            r@ == driver_id(self),
    {
        match self {
            AudioDriverKind::Dummy => "dummy",
            AudioDriverKind::Jack => "jack",
            AudioDriverKind::Cpal => "cpal",
            AudioDriverKind::WebAudio => "webaudio",
        }
    }
}

/// `format!("{:?}", s)`: the string quoted and escaped as Rust's `Debug` writes it.
pub uninterp spec fn debug_quoted(s: Seq<char>) -> Seq<char>;

/// `<str as Debug>::fmt`, through `format!`.
#[verifier::external_body]
fn debug_text(s: &str) -> (r: String)
    ensures
        r@ == debug_quoted(s@),
{
    format!("{:?}", s)
}

/// The error about a driver name that names no driver, given the name as `{:?}` quotes it.
pub fn unknown_driver_message(quoted_value: &str) -> (r: String)
    ensures
        r@ == "unknown audio driver "@ + quoted_value@,
{
    let mut message = "unknown audio driver ".to_string();
    message.append(quoted_value);
    message
}

/// The driver that a setting value names, or an error that quotes the value.
pub fn parse_audio_driver_kind(value: String) -> (r: Result<AudioDriverKind, String>)
    ensures
        match r {
            Ok(kind) => driver_id(kind) == value@,
            Err(message) => (forall|kind: AudioDriverKind| driver_id(kind) != value@)
                && message@ == "unknown audio driver "@ + debug_quoted(value@),
        },
{
    if str_equal(value.as_str(), "dummy") {
        Ok(AudioDriverKind::Dummy)
    } else if str_equal(value.as_str(), "jack") {
        Ok(AudioDriverKind::Jack)
    } else if str_equal(value.as_str(), "cpal") {
        Ok(AudioDriverKind::Cpal)
    } else if str_equal(value.as_str(), "webaudio") {
        Ok(AudioDriverKind::WebAudio)
    } else {
        let quoted = debug_text(value.as_str());
        let message = unknown_driver_message(quoted.as_str());
        proof {
            assert forall|kind: AudioDriverKind| driver_id(kind) != value@ by {
                match kind {
                    AudioDriverKind::Dummy => {},
                    AudioDriverKind::Jack => {},
                    AudioDriverKind::Cpal => {},
                    AudioDriverKind::WebAudio => {},
                }
            }
        }
        Err(message)
    }
}

/// `s` without leading white space.
pub open spec fn trim_start(s: Seq<char>) -> Seq<char>
    decreases s.len(),
{
    if s.len() > 0 && unicode_whitespace(s[0]) { trim_start(s.drop_first()) } else { s }
}

/// `s` without trailing white space.
pub open spec fn trim_end(s: Seq<char>) -> Seq<char>
    decreases s.len(),
{
    if s.len() > 0 && unicode_whitespace(s.last()) { trim_end(s.drop_last()) } else { s }
}

/// `s` without leading or trailing white space.
pub open spec fn trim(s: Seq<char>) -> Seq<char> {
    trim_end(trim_start(s))
}

/// The comma-separated pieces of `s`, trimmed, without the empty ones.
pub open spec fn selectors(s: Seq<char>) -> Seq<Seq<char>>
    decreases s.len(),
{
    let keep = |piece: Seq<char>| if trim(piece).len() > 0 { seq![trim(piece)] } else { Seq::<Seq<char>>::empty() };
    match s.index_of_first(',') {
        Some(i) => {
            proof {
                s.index_of_first_ensures(',');
            }
            keep(s.take(i)) + selectors(s.skip(i + 1))
        },
        None => keep(s),
    }
}

proof fn lemma_trim_start_from(s: Seq<char>, i: int)
    requires
        0 <= i <= s.len(),
        forall|k: int| 0 <= k < i ==> unicode_whitespace(#[trigger] s[k]),
        i < s.len() ==> !unicode_whitespace(s[i]),
    ensures
        trim_start(s) == s.skip(i),
    decreases i,
{
    if i == 0 {
        assert(s.skip(0) =~= s);
    } else {
        let t = s.drop_first();
        assert forall|k: int| 0 <= k < i - 1 implies unicode_whitespace(#[trigger] t[k]) by {
            assert(t[k] == s[k + 1]);
        }
        lemma_trim_start_from(t, i - 1);
        assert(t.skip(i - 1) =~= s.skip(i));
    }
}

proof fn lemma_trim_end_to(s: Seq<char>, j: int)
    requires
        0 <= j <= s.len(),
        forall|k: int| j <= k < s.len() ==> unicode_whitespace(#[trigger] s[k]),
        j > 0 ==> !unicode_whitespace(s[j - 1]),
    ensures
        trim_end(s) == s.take(j),
    decreases s.len() - j,
{
    if j == s.len() {
        assert(s.take(j) =~= s);
    } else {
        let t = s.drop_last();
        assert forall|k: int| j <= k < t.len() implies unicode_whitespace(#[trigger] t[k]) by {
            assert(t[k] == s[k]);
        }
        lemma_trim_end_to(t, j);
        assert(t.take(j) =~= s.take(j));
    }
}

/// The characters `from..to` of `chars`, trimmed.
fn trimmed_piece(chars: &Vec<char>, from: usize, to: usize) -> (r: Vec<char>)
    requires
        from <= to <= chars@.len(),
    ensures
        r@ == trim(chars@.subrange(from as int, to as int)),
{
    let ghost piece = chars@.subrange(from as int, to as int);
    let mut start = from;
    while start < to && char_is_whitespace(chars[start])
        invariant
            from <= start <= to,
            to <= chars@.len(),
            piece == chars@.subrange(from as int, to as int),
            forall|k: int| 0 <= k < start - from ==> unicode_whitespace(#[trigger] piece[k]),
        decreases to - start,
    {
        start = start + 1;
    }
    proof {
        lemma_trim_start_from(piece, start - from);
    }
    let ghost rest = piece.skip(start - from);
    let mut end = to;
    while end > start && char_is_whitespace(chars[end - 1])
        invariant
            start <= end <= to,
            to <= chars@.len(),
            rest == chars@.subrange(start as int, to as int),
            forall|k: int| end - start <= k < rest.len() ==> unicode_whitespace(#[trigger] rest[k]),
        decreases end - start,
    {
        end = end - 1;
    }
    proof {
        assert(rest =~= chars@.subrange(start as int, to as int));
        lemma_trim_end_to(rest, end - start);
    }
    let mut out: Vec<char> = Vec::new();
    let mut k = start;
    while k < end
        invariant
            start <= k <= end,
            end <= chars@.len(),
            out@ == chars@.subrange(start as int, k as int),
        decreases end - k,
    {
        out.push(chars[k]);
        k = k + 1;
        assert(out@ =~= chars@.subrange(start as int, k as int));
    }
    proof {
        assert(rest.take(end - start) =~= chars@.subrange(start as int, end as int));
    }
    out
}

/// The comma-separated selectors of a setting, trimmed, without empty ones.
pub fn split_selectors(value: &str) -> (r: Vec<String>)
    ensures
        r@.map_values(|s: String| s@) == selectors(value@),
{
    let chars = text_chars(value);
    let n = chars.len();
    let mut out: Vec<String> = Vec::new();
    let mut pos: usize = 0;
    let mut done = false;
    proof {
        assert(chars@.skip(0) =~= chars@);
        assert(out@.map_values(|s: String| s@) + selectors(chars@) =~= selectors(chars@));
    }
    while !done
        invariant
            chars@ == value@,
            n == chars@.len(),
            pos <= n,
            !done ==> out@.map_values(|s: String| s@) + selectors(chars@.skip(pos as int)) == selectors(chars@),
            done ==> out@.map_values(|s: String| s@) == selectors(chars@),
        decreases n - pos + if done { 0int } else { 1int },
    {
        let ghost rest = chars@.skip(pos as int);
        let mut j = pos;
        while j < n && chars[j] != ','
            invariant
                pos <= j <= n,
                n == chars@.len(),
                forall|k: int| pos <= k < j ==> chars@[k] != ',',
            decreases n - j,
        {
            j = j + 1;
        }
        let piece = trimmed_piece(&chars, pos, j);
        proof {
            rest.index_of_first_ensures(',');
            assert(chars@.subrange(pos as int, j as int) =~= rest.take(j - pos));
            if j < n {
                assert(rest[j - pos] == ',');
                match rest.index_of_first(',') {
                    Some(i) => {
                        if i < j - pos {
                            assert(rest[i] == chars@[pos + i]);
                        }
                        if i > j - pos {
                            assert(rest.contains(','));
                        }
                    },
                    None => {
                        assert(rest.contains(','));
                    },
                }
                assert(rest.skip(j - pos + 1) =~= chars@.skip(j + 1));
            } else {
                match rest.index_of_first(',') {
                    Some(i) => {
                        assert(rest[i] == chars@[pos + i]);
                    },
                    None => {},
                }
                assert(rest.take(j - pos) =~= rest);
            }
        }
        let ghost before = out@.map_values(|s: String| s@);
        if piece.len() > 0 {
            out.push(text_from_chars(&piece));
            proof {
                assert(out@.map_values(|s: String| s@) =~= before + seq![piece@]);
            }
        }
        if j < n {
            proof {
                let keep = |p: Seq<char>| if trim(p).len() > 0 { seq![trim(p)] } else { Seq::<Seq<char>>::empty() };
                assert(selectors(rest) == keep(rest.take(j - pos)) + selectors(chars@.skip(j + 1)));
                assert(out@.map_values(|s: String| s@) =~= before + keep(rest.take(j - pos)));
            }
            pos = j + 1;
        } else {
            proof {
                let keep = |p: Seq<char>| if trim(p).len() > 0 { seq![trim(p)] } else { Seq::<Seq<char>>::empty() };
                assert(selectors(rest) == keep(rest));
                assert(out@.map_values(|s: String| s@) =~= before + keep(rest));
            }
            pos = n;
            done = true;
        }
    }
    out
}

} // verus!

verus! {

/// Whether a string is empty or white space only.
/// `s` without leading or trailing white space.
pub fn trimmed(s: &str) -> (r: String)
    ensures
        r@ == trim(s@),
{
    let chars = text_chars(s);
    let piece = trimmed_piece(&chars, 0, chars.len());
    proof {
        assert(chars@.subrange(0, chars@.len() as int) =~= s@);
    }
    text_from_chars(&piece)
}

pub fn is_blank(s: &str) -> (r: bool)
    ensures
        r == (trim(s@).len() == 0),
{
    let chars = text_chars(s);
    let piece = trimmed_piece(&chars, 0, chars.len());
    proof {
        assert(chars@.subrange(0, chars@.len() as int) =~= s@);
    }
    piece.len() == 0
}

/// Settings of the offline driver.
#[derive(Clone, Copy, Debug, PartialEq, Eq, Structural)]
pub struct DummyAudioDriverConfig {
    pub sample_rate: u32,
    pub buffer_size: u32,
}

/// Settings of the JACK driver.
#[derive(Clone, Debug, PartialEq, Eq)]
pub struct JackAudioDriverConfig {
    pub client_name: String,
}

/// Settings of the CPAL driver.
#[derive(Clone, Debug, PartialEq, Eq)]
pub struct CpalAudioDriverConfig {
    pub client_name: String,
    pub host: String,
    pub output_device: String,
    pub input_device: String,
    pub sample_rate: u32,
    pub buffer_size: u32,
    pub output_channels: String,
    pub input_channels: String,
    pub capture_ring_frames: u32,
    pub midi_inputs: Vec<String>,
    pub midi_outputs: Vec<String>,
}

/// The settings of one driver.
#[derive(Clone, Debug, PartialEq, Eq)]
pub enum AudioDriverConfig {
    Dummy(DummyAudioDriverConfig),
    Jack(JackAudioDriverConfig),
    Cpal(CpalAudioDriverConfig),
    WebAudio,
}

/// The stored values of the driver settings.
#[derive(Clone, Debug, PartialEq, Eq)]
pub struct DriverSettingValues {
    pub dummy_sample_rate: u32,
    pub dummy_buffer_size: u32,
    pub jack_client_name: String,
    pub cpal_client_name: String,
    pub cpal_host: String,
    pub cpal_output_device: String,
    pub cpal_input_device: String,
    pub cpal_sample_rate: u32,
    pub cpal_buffer_size: u32,
    pub cpal_output_channels: String,
    pub cpal_input_channels: String,
    pub cpal_capture_ring_frames: u32,
    pub cpal_midi_inputs: String,
    pub cpal_midi_outputs: String,
}

/// The CPAL values are usable: no selector is blank and the capture ring holds frames.
pub open spec fn cpal_values_usable(v: DriverSettingValues) -> bool {
    &&& trim(v.cpal_client_name@).len() > 0
    &&& trim(v.cpal_host@).len() > 0
    &&& trim(v.cpal_output_device@).len() > 0
    &&& trim(v.cpal_input_device@).len() > 0
    &&& trim(v.cpal_output_channels@).len() > 0
    &&& trim(v.cpal_input_channels@).len() > 0
    &&& v.cpal_capture_ring_frames != 0
}

/// The configuration of driver `kind` from the stored values: the offline driver takes its
/// rate and buffer; JACK needs a client name that is not blank; CPAL needs usable values and
/// splits its MIDI selectors at commas; Web Audio has no settings.
pub fn audio_driver_config(kind: AudioDriverKind, values: &DriverSettingValues) -> (r: Result<AudioDriverConfig, String>)
    ensures
        match kind {
            AudioDriverKind::Dummy => r == Ok::<AudioDriverConfig, String>(AudioDriverConfig::Dummy(DummyAudioDriverConfig {
                sample_rate: values.dummy_sample_rate,
                buffer_size: values.dummy_buffer_size,
            })),
            AudioDriverKind::Jack => if trim(values.jack_client_name@).len() == 0 {
                r matches Err(m) && m@ == "JACK client name must not be empty"@
            } else {
                r matches Ok(AudioDriverConfig::Jack(c)) && c.client_name == values.jack_client_name
            },
            AudioDriverKind::Cpal => if !cpal_values_usable(*values) {
                r matches Err(m) && m@ == "CPAL selectors and capture ring must be non-empty"@
            } else {
                r matches Ok(AudioDriverConfig::Cpal(c))
                    && c.client_name == values.cpal_client_name
                    && c.host == values.cpal_host
                    && c.output_device == values.cpal_output_device
                    && c.input_device == values.cpal_input_device
                    && c.sample_rate == values.cpal_sample_rate
                    && c.buffer_size == values.cpal_buffer_size
                    && c.output_channels == values.cpal_output_channels
                    && c.input_channels == values.cpal_input_channels
                    && c.capture_ring_frames == values.cpal_capture_ring_frames
                    && c.midi_inputs@.map_values(|s: String| s@) == selectors(values.cpal_midi_inputs@)
                    && c.midi_outputs@.map_values(|s: String| s@) == selectors(values.cpal_midi_outputs@)
            },
            AudioDriverKind::WebAudio => r == Ok::<AudioDriverConfig, String>(AudioDriverConfig::WebAudio),
        },
{
    match kind {
        AudioDriverKind::Dummy => Ok(AudioDriverConfig::Dummy(DummyAudioDriverConfig {
            sample_rate: values.dummy_sample_rate,
            buffer_size: values.dummy_buffer_size,
        })),
        AudioDriverKind::Jack => {
            if is_blank(values.jack_client_name.as_str()) {
                return Err("JACK client name must not be empty".to_string());
            }
            Ok(AudioDriverConfig::Jack(JackAudioDriverConfig { client_name: values.jack_client_name.clone() }))
        },
        AudioDriverKind::Cpal => {
            let config = CpalAudioDriverConfig {
                client_name: values.cpal_client_name.clone(),
                host: values.cpal_host.clone(),
                output_device: values.cpal_output_device.clone(),
                input_device: values.cpal_input_device.clone(),
                sample_rate: values.cpal_sample_rate,
                buffer_size: values.cpal_buffer_size,
                output_channels: values.cpal_output_channels.clone(),
                input_channels: values.cpal_input_channels.clone(),
                capture_ring_frames: values.cpal_capture_ring_frames,
                midi_inputs: split_selectors(values.cpal_midi_inputs.as_str()),
                midi_outputs: split_selectors(values.cpal_midi_outputs.as_str()),
            };
            if is_blank(config.client_name.as_str()) || is_blank(config.host.as_str())
                || is_blank(config.output_device.as_str()) || is_blank(config.input_device.as_str())
                || is_blank(config.output_channels.as_str()) || is_blank(config.input_channels.as_str())
                || config.capture_ring_frames == 0
            {
                return Err("CPAL selectors and capture ring must be non-empty".to_string());
            }
            Ok(AudioDriverConfig::Cpal(config))
        },
        AudioDriverKind::WebAudio => Ok(AudioDriverConfig::WebAudio),
    }
}

/// How a new track is laid out.
#[derive(Clone, Copy, Debug, Default, PartialEq, Eq, Structural)]
pub enum AddTrackMode {
    #[default]
    Regular,
    Trigger,
    DryWet,
}

/// How the recording offset of a track is chosen.
#[derive(Clone, Copy, Debug, Default, PartialEq, Eq, Structural)]
pub enum RecordingOffsetAdjustmentState {
    #[default]
    Automatic,
    ManualOverride,
    AutomaticPlusTrim,
}

/// How the processor latency of a track is chosen.
#[derive(Clone, Copy, Debug, Default, PartialEq, Eq, Structural)]
pub enum ProcessorLatencyAdjustmentState {
    #[default]
    Automatic,
    ManualOverride,
    AutomaticPlusTrim,
}

pub open spec fn track_mode_text(mode: AddTrackMode) -> Seq<char> {
    match mode {
        AddTrackMode::Regular => "regular"@,
        AddTrackMode::Trigger => "trigger"@,
        AddTrackMode::DryWet => "dry_wet"@,
    }
}

pub open spec fn recording_adjustment_text(value: RecordingOffsetAdjustmentState) -> Seq<char> {
    match value {
        RecordingOffsetAdjustmentState::Automatic => "automatic"@,
        RecordingOffsetAdjustmentState::ManualOverride => "manual"@,
        RecordingOffsetAdjustmentState::AutomaticPlusTrim => "automatic_plus_trim"@,
    }
}

pub open spec fn processor_adjustment_text(value: ProcessorLatencyAdjustmentState) -> Seq<char> {
    match value {
        ProcessorLatencyAdjustmentState::Automatic => "automatic"@,
        ProcessorLatencyAdjustmentState::ManualOverride => "manual"@,
        ProcessorLatencyAdjustmentState::AutomaticPlusTrim => "automatic_plus_trim"@,
    }
}

/// The setting value of a track mode.
pub fn track_mode_value(value: AddTrackMode) -> (r: &'static str)
    ensures
        r@ == track_mode_text(value),
{
    match value {
        AddTrackMode::Regular => "regular",
        AddTrackMode::Trigger => "trigger",
        AddTrackMode::DryWet => "dry_wet",
    }
}

/// The track mode that a setting value names.
pub fn track_mode_from_value(value: &str) -> (r: Option<AddTrackMode>)
    ensures
        match r {
            Some(mode) => track_mode_text(mode) == value@,
            None => forall|mode: AddTrackMode| track_mode_text(mode) != value@,
        },
{
    if str_equal(value, "regular") {
        Some(AddTrackMode::Regular)
    } else if str_equal(value, "trigger") {
        Some(AddTrackMode::Trigger)
    } else if str_equal(value, "dry_wet") {
        Some(AddTrackMode::DryWet)
    } else {
        proof {
            assert forall|mode: AddTrackMode| track_mode_text(mode) != value@ by {
                match mode { AddTrackMode::Regular => {}, AddTrackMode::Trigger => {}, AddTrackMode::DryWet => {} }
            }
        }
        None
    }
}

/// The setting value of a recording offset adjustment.
pub fn recording_adjustment_value(value: RecordingOffsetAdjustmentState) -> (r: &'static str)
    ensures
        r@ == recording_adjustment_text(value),
{
    match value {
        RecordingOffsetAdjustmentState::Automatic => "automatic",
        RecordingOffsetAdjustmentState::ManualOverride => "manual",
        RecordingOffsetAdjustmentState::AutomaticPlusTrim => "automatic_plus_trim",
    }
}

/// The recording offset adjustment that a setting value names.
pub fn recording_adjustment_from_value(value: &str) -> (r: Option<RecordingOffsetAdjustmentState>)
    ensures
        match r {
            Some(v) => recording_adjustment_text(v) == value@,
            None => forall|v: RecordingOffsetAdjustmentState| recording_adjustment_text(v) != value@,
        },
{
    if str_equal(value, "automatic") {
        Some(RecordingOffsetAdjustmentState::Automatic)
    } else if str_equal(value, "manual") {
        Some(RecordingOffsetAdjustmentState::ManualOverride)
    } else if str_equal(value, "automatic_plus_trim") {
        Some(RecordingOffsetAdjustmentState::AutomaticPlusTrim)
    } else {
        proof {
            assert forall|v: RecordingOffsetAdjustmentState| recording_adjustment_text(v) != value@ by {
                match v {
                    RecordingOffsetAdjustmentState::Automatic => {},
                    RecordingOffsetAdjustmentState::ManualOverride => {},
                    RecordingOffsetAdjustmentState::AutomaticPlusTrim => {},
                }
            }
        }
        None
    }
}

/// The setting value of a processor latency adjustment.
pub fn processor_adjustment_value(value: ProcessorLatencyAdjustmentState) -> (r: &'static str)
    ensures
        r@ == processor_adjustment_text(value),
{
    match value {
        ProcessorLatencyAdjustmentState::Automatic => "automatic",
        ProcessorLatencyAdjustmentState::ManualOverride => "manual",
        ProcessorLatencyAdjustmentState::AutomaticPlusTrim => "automatic_plus_trim",
    }
}

/// The processor latency adjustment that a setting value names.
pub fn processor_adjustment_from_value(value: &str) -> (r: Option<ProcessorLatencyAdjustmentState>)
    ensures
        match r {
            Some(v) => processor_adjustment_text(v) == value@,
            None => forall|v: ProcessorLatencyAdjustmentState| processor_adjustment_text(v) != value@,
        },
{
    if str_equal(value, "automatic") {
        Some(ProcessorLatencyAdjustmentState::Automatic)
    } else if str_equal(value, "manual") {
        Some(ProcessorLatencyAdjustmentState::ManualOverride)
    } else if str_equal(value, "automatic_plus_trim") {
        Some(ProcessorLatencyAdjustmentState::AutomaticPlusTrim)
    } else {
        proof {
            assert forall|v: ProcessorLatencyAdjustmentState| processor_adjustment_text(v) != value@ by {
                match v {
                    ProcessorLatencyAdjustmentState::Automatic => {},
                    ProcessorLatencyAdjustmentState::ManualOverride => {},
                    ProcessorLatencyAdjustmentState::AutomaticPlusTrim => {},
                }
            }
        }
        None
    }
}

pub fn recording_adjustment_label(value: RecordingOffsetAdjustmentState) -> (r: &'static str)
    ensures
        r@ == match value {
            RecordingOffsetAdjustmentState::Automatic => "Automatic"@,
            RecordingOffsetAdjustmentState::ManualOverride => "Manual"@,
            RecordingOffsetAdjustmentState::AutomaticPlusTrim => "Automatic + trim"@,
        },
{
    match value {
        RecordingOffsetAdjustmentState::Automatic => "Automatic",
        RecordingOffsetAdjustmentState::ManualOverride => "Manual",
        RecordingOffsetAdjustmentState::AutomaticPlusTrim => "Automatic + trim",
    }
}

pub fn processor_adjustment_label(value: ProcessorLatencyAdjustmentState) -> (r: &'static str)
    ensures
        r@ == match value {
            ProcessorLatencyAdjustmentState::Automatic => "Automatic"@,
            ProcessorLatencyAdjustmentState::ManualOverride => "Manual"@,
            ProcessorLatencyAdjustmentState::AutomaticPlusTrim => "Automatic + trim"@,
        },
{
    match value {
        ProcessorLatencyAdjustmentState::Automatic => "Automatic",
        ProcessorLatencyAdjustmentState::ManualOverride => "Manual",
        ProcessorLatencyAdjustmentState::AutomaticPlusTrim => "Automatic + trim",
    }
}

/// The type of a track processor.
#[derive(Clone, Debug, PartialEq, Eq, Hash)]
pub struct TrackProcessorTypeId(pub String);

/// The defaults of new tracks.
#[derive(Clone, Debug, PartialEq, Eq)]
pub struct NewTrackConfiguration {
    pub mode: AddTrackMode,
    pub audio_channels: u32,
    pub midi: bool,
    pub dry_midi: bool,
    pub processor: Option<TrackProcessorTypeId>,
    pub recording_adjustment: RecordingOffsetAdjustmentState,
    pub recording_frames: i32,
    pub processor_adjustment: ProcessorLatencyAdjustmentState,
    pub processor_frames: i32,
}

/// The stored setting values of the new-track defaults.
#[derive(Clone, Debug, PartialEq, Eq)]
pub struct NewTrackSettingValues {
    pub mode: String,
    pub audio_channels: u32,
    pub midi: bool,
    pub dry_midi: bool,
    pub processor: String,
    pub recording_adjustment: String,
    pub recording_frames: i32,
    pub processor_adjustment: String,
    pub processor_frames: i32,
}

/// `values` are the settings that store `config`; no processor is stored as an empty name.
pub open spec fn stores_configuration(config: NewTrackConfiguration, values: NewTrackSettingValues) -> bool {
    &&& values.mode@ == track_mode_text(config.mode)
    &&& values.audio_channels == config.audio_channels
    &&& values.midi == config.midi
    &&& values.dry_midi == config.dry_midi
    &&& values.processor@ == match config.processor { Some(p) => p.0@, None => Seq::<char>::empty() }
    &&& values.recording_adjustment@ == recording_adjustment_text(config.recording_adjustment)
    &&& values.recording_frames == config.recording_frames
    &&& values.processor_adjustment@ == processor_adjustment_text(config.processor_adjustment)
    &&& values.processor_frames == config.processor_frames
}

/// The configuration that `values` store, if the mode and adjustments name known choices.
pub open spec fn read_configuration(values: NewTrackSettingValues, config: NewTrackConfiguration) -> bool {
    &&& track_mode_text(config.mode) == values.mode@
    &&& config.audio_channels == values.audio_channels
    &&& config.midi == values.midi
    &&& config.dry_midi == values.dry_midi
    &&& match config.processor {
        Some(p) => values.processor@.len() > 0 && p.0@ == values.processor@,
        None => values.processor@.len() == 0,
    }
    &&& recording_adjustment_text(config.recording_adjustment) == values.recording_adjustment@
    &&& config.recording_frames == values.recording_frames
    &&& processor_adjustment_text(config.processor_adjustment) == values.processor_adjustment@
    &&& config.processor_frames == values.processor_frames
}

/// The stored values name known choices.
pub open spec fn values_readable(values: NewTrackSettingValues) -> bool {
    &&& exists|m: AddTrackMode| track_mode_text(m) == values.mode@
    &&& exists|a: RecordingOffsetAdjustmentState| recording_adjustment_text(a) == values.recording_adjustment@
    &&& exists|a: ProcessorLatencyAdjustmentState| processor_adjustment_text(a) == values.processor_adjustment@
}

impl NewTrackConfiguration {
    /// The defaults that the settings store; none when a value names no known choice.
    pub fn from_setting_values(values: &NewTrackSettingValues) -> (r: Option<Self>)
        ensures
            match r {
                Some(config) => read_configuration(*values, config),
                None => !values_readable(*values),
            },
    {
        let mode = track_mode_from_value(values.mode.as_str());
        let recording = recording_adjustment_from_value(values.recording_adjustment.as_str());
        let processor_adjustment = processor_adjustment_from_value(values.processor_adjustment.as_str());
        match (mode, recording, processor_adjustment) {
            (Some(mode), Some(recording_adjustment), Some(processor_adjustment)) => {
                let processor = if values.processor.as_str().unicode_len() == 0 {
                    None
                } else {
                    Some(TrackProcessorTypeId(values.processor.clone()))
                };
                Some(NewTrackConfiguration {
                    mode,
                    audio_channels: values.audio_channels,
                    midi: values.midi,
                    dry_midi: values.dry_midi,
                    processor,
                    recording_adjustment,
                    recording_frames: values.recording_frames,
                    processor_adjustment,
                    processor_frames: values.processor_frames,
                })
            },
            _ => None,
        }
    }

    /// The setting values that store these defaults.
    pub fn to_setting_values(&self) -> (r: NewTrackSettingValues)
        ensures
            stores_configuration(*self, r),
    {
        NewTrackSettingValues {
            mode: track_mode_value(self.mode).to_string(),
            audio_channels: self.audio_channels,
            midi: self.midi,
            dry_midi: self.dry_midi,
            processor: match &self.processor {
                Some(p) => p.0.clone(),
                None => String::new(),
            },
            recording_adjustment: recording_adjustment_value(self.recording_adjustment).to_string(),
            recording_frames: self.recording_frames,
            processor_adjustment: processor_adjustment_value(self.processor_adjustment).to_string(),
            processor_frames: self.processor_frames,
        }
    }
}

/// Law: the defaults written to the settings read back as the same defaults, provided a
/// processor is never named by the empty string.
pub proof fn lemma_track_defaults_round_trip(config: NewTrackConfiguration, values: NewTrackSettingValues, read: NewTrackConfiguration)
    requires
        config.processor matches Some(p) ==> p.0@.len() > 0,
        stores_configuration(config, values),
        read_configuration(values, read),
    ensures
        read.mode == config.mode,
        read.audio_channels == config.audio_channels,
        read.midi == config.midi,
        read.dry_midi == config.dry_midi,
        read.processor is Some == config.processor is Some,
        read.processor matches Some(p) ==> p.0@ == config.processor.unwrap().0@,
        read.recording_adjustment == config.recording_adjustment,
        read.recording_frames == config.recording_frames,
        read.processor_adjustment == config.processor_adjustment,
        read.processor_frames == config.processor_frames,
{
    lemma_mode_text_injective(read.mode, config.mode);
    lemma_recording_text_injective(read.recording_adjustment, config.recording_adjustment);
    lemma_processor_text_injective(read.processor_adjustment, config.processor_adjustment);
}

/// Law: stored defaults can always be read back.
pub proof fn lemma_stored_defaults_are_readable(config: NewTrackConfiguration, values: NewTrackSettingValues)
    requires
        stores_configuration(config, values),
    ensures
        values_readable(values),
{
    assert(track_mode_text(config.mode) == values.mode@);
    assert(recording_adjustment_text(config.recording_adjustment) == values.recording_adjustment@);
    assert(processor_adjustment_text(config.processor_adjustment) == values.processor_adjustment@);
}

proof fn lemma_mode_text_injective(a: AddTrackMode, b: AddTrackMode)
    ensures
        track_mode_text(a) == track_mode_text(b) ==> a == b,
{
    reveal_strlit("regular");
    reveal_strlit("trigger");
    reveal_strlit("dry_wet");
    if track_mode_text(a) == track_mode_text(b) && a != b {
        match (a, b) {
            (AddTrackMode::Regular, AddTrackMode::Trigger) | (AddTrackMode::Trigger, AddTrackMode::Regular) => {
                assert("regular"@[0] != "trigger"@[0]);
            },
            (AddTrackMode::Regular, _) | (_, AddTrackMode::Regular) => {
                assert("regular"@[0] != "dry_wet"@[0]);
            },
            _ => {
                assert("trigger"@[0] != "dry_wet"@[0]);
            },
        }
    }
}

proof fn lemma_recording_text_injective(a: RecordingOffsetAdjustmentState, b: RecordingOffsetAdjustmentState)
    ensures
        recording_adjustment_text(a) == recording_adjustment_text(b) ==> a == b,
{
    reveal_strlit("automatic");
    reveal_strlit("manual");
    reveal_strlit("automatic_plus_trim");
    if recording_adjustment_text(a) == recording_adjustment_text(b) && a != b {
        assert(recording_adjustment_text(a).len() != recording_adjustment_text(b).len());
    }
}

proof fn lemma_processor_text_injective(a: ProcessorLatencyAdjustmentState, b: ProcessorLatencyAdjustmentState)
    ensures
        processor_adjustment_text(a) == processor_adjustment_text(b) ==> a == b,
{
    reveal_strlit("automatic");
    reveal_strlit("manual");
    reveal_strlit("automatic_plus_trim");
    if processor_adjustment_text(a) == processor_adjustment_text(b) && a != b {
        assert(processor_adjustment_text(a).len() != processor_adjustment_text(b).len());
    }
}

/// Why stored new-track defaults are rejected.
#[derive(Clone, Debug, PartialEq, Eq)]
pub enum TrackDefaultsError {
    MissingValue(String),
    InvalidValue(String),
}

/// Setting keys of the new-track defaults that validation names.
pub open spec fn processor_adjustment_key() -> Seq<char> { "tracks.new.default_processor_adjustment"@ }
pub open spec fn processor_frames_key() -> Seq<char> { "tracks.new.default_processor_frames"@ }
pub open spec fn mode_key() -> Seq<char> { "tracks.new.default_mode"@ }
pub open spec fn processor_key() -> Seq<char> { "tracks.new.default_processor"@ }

/// The first problem of the stored defaults, in the order: processor adjustment missing,
/// processor frames missing, negative manual processor frames, mode missing, processor
/// missing, dry/wet mode without a processor.
pub open spec fn spec_validate_track_defaults(adjustment: Option<Seq<char>>, frames: Option<i32>, mode: Option<Seq<char>>,
    processor: Option<Seq<char>>) -> Option<(bool, Seq<char>)> {
    match adjustment {
        None => Some((true, processor_adjustment_key())),
        Some(a) => match frames {
            None => Some((true, processor_frames_key())),
            Some(f) => if a == "manual"@ && f < 0 {
                Some((false, processor_frames_key()))
            } else {
                match mode {
                    None => Some((true, mode_key())),
                    Some(m) => match processor {
                        None => Some((true, processor_key())),
                        Some(p) => if m == "dry_wet"@ && p.len() == 0 {
                            Some((false, processor_key()))
                        } else {
                            None
                        },
                    },
                }
            },
        },
    }
}

/// The view of an optional string slice.
pub open spec fn str_view(s: Option<&str>) -> Option<Seq<char>> {
    match s {
        Some(t) => Some(t@),
        None => None,
    }
}

/// Checks stored new-track defaults; absent values are missing.
pub fn validate_track_default_latency(adjustment: Option<&str>, frames: Option<i32>, mode: Option<&str>, processor: Option<&str>)
    -> (r: Result<(), TrackDefaultsError>)
    ensures
        match spec_validate_track_defaults(str_view(adjustment), frames, str_view(mode), str_view(processor)) {
            None => r is Ok,
            Some((missing, key)) => match r {
                Err(TrackDefaultsError::MissingValue(k)) => missing && k@ == key,
                Err(TrackDefaultsError::InvalidValue(k)) => !missing && k@ == key,
                Ok(_) => false,
            },
        },
{
    let adjustment = match adjustment {
        Some(a) => a,
        None => return Err(TrackDefaultsError::MissingValue("tracks.new.default_processor_adjustment".to_string())),
    };
    let frames = match frames {
        Some(f) => f,
        None => return Err(TrackDefaultsError::MissingValue("tracks.new.default_processor_frames".to_string())),
    };
    if str_equal(adjustment, "manual") && frames < 0 {
        return Err(TrackDefaultsError::InvalidValue("tracks.new.default_processor_frames".to_string()));
    }
    let mode = match mode {
        Some(m) => m,
        None => return Err(TrackDefaultsError::MissingValue("tracks.new.default_mode".to_string())),
    };
    let processor = match processor {
        Some(p) => p,
        None => return Err(TrackDefaultsError::MissingValue("tracks.new.default_processor".to_string())),
    };
    if str_equal(mode, "dry_wet") && processor.unicode_len() == 0 {
        return Err(TrackDefaultsError::InvalidValue("tracks.new.default_processor".to_string()));
    }
    Ok(())
}

/// The state of an audio driver.
#[derive(Clone, Copy, Debug, PartialEq, Eq, Structural)]
pub enum AudioDriverState {
    Dummy,
    Running,
    AwaitingGesture,
    Denied,
    Unsupported,
    Failed,
}

/// How healthy the audio backend looks.
#[derive(Clone, Copy, Debug, PartialEq, Eq, Structural)]
pub enum BackendHealth {
    Active,
    Waiting,
    Failed,
}

/// A running driver is active only while its callbacks run; a denied, unsupported or failed
/// one has failed; anything else is waiting.
pub fn backend_health(driver: AudioDriverState, callbacks_active: bool) -> (r: BackendHealth)
    ensures
        r == match driver {
            AudioDriverState::Dummy | AudioDriverState::Running => if callbacks_active { BackendHealth::Active } else { BackendHealth::Waiting },
            AudioDriverState::Denied | AudioDriverState::Unsupported | AudioDriverState::Failed => BackendHealth::Failed,
            _ => BackendHealth::Waiting,
        },
{
    match driver {
        AudioDriverState::Dummy | AudioDriverState::Running => {
            if callbacks_active { BackendHealth::Active } else { BackendHealth::Waiting }
        },
        AudioDriverState::Denied | AudioDriverState::Unsupported | AudioDriverState::Failed => BackendHealth::Failed,
        _ => BackendHealth::Waiting,
    }
}

} // verus!
