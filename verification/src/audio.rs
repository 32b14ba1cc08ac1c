//! Audio: which device is recorded, and how its samples become packets.

use vstd::prelude::*;

verus! {

/// Samples per second and channel.
pub const SAMPLE_RATE: i32 = 48000;

/// Channels of a recording.
pub const CHANNELS: usize = 2;

/// Samples per channel in one encoded frame.
pub const FRAME_SIZE: usize = 960;

/// Room for one encoded packet.
pub const OPUS_MAX_PACKET: usize = 4000;

/// Bytes of one frame of samples, four bytes each.
pub const FRAME_BYTES: usize = 7680;

/// A device that can be recorded.
#[derive(Debug)]
pub struct AudioDevice {
    pub name: String,
    pub id: String,
}

/// The name and the identifier of a device.
pub open spec fn device_view(d: AudioDevice) -> (Seq<char>, Seq<char>) {
    (d.name@, d.id@)
}

/// The names and identifiers of a row of devices.
pub open spec fn device_views(devices: Seq<AudioDevice>) -> Seq<(Seq<char>, Seq<char>)> {
    devices.map_values(|d: AudioDevice| device_view(d))
}

/// What is recorded.
#[derive(Clone, Copy, Debug, PartialEq, Eq, Structural)]
pub enum AudioSourceType {
    SystemAudio,
    Microphone,
}

/// Which way a device carries sound.
#[derive(Clone, Copy, Debug, PartialEq, Eq, Structural)]
pub enum Direction {
    Render,
    Capture,
}

impl AudioSourceType {
    /// The caption of a source.
    pub open spec fn caption(self) -> Seq<char> {
        match self {
            AudioSourceType::SystemAudio => "System audio (loopback)"@,
            AudioSourceType::Microphone => "Microphone"@,
        }
    }

    /// The word that stands for a source in identifiers.
    pub open spec fn word(self) -> Seq<char> {
        match self {
            AudioSourceType::SystemAudio => "SystemAudio"@,
            AudioSourceType::Microphone => "Microphone"@,
        }
    }

    /// The caption of a source.
    pub fn label(&self) -> (r: &'static str)
        ensures
            r@ == self.caption(),
    {
        match self {
            AudioSourceType::SystemAudio => "System audio (loopback)",
            AudioSourceType::Microphone => "Microphone",
        }
    }

    /// The word that stands for a source in identifiers.
    pub fn identifier(&self) -> (r: &'static str)
        ensures
            r@ == self.word(),
    {
        match self {
            AudioSourceType::SystemAudio => "SystemAudio",
            AudioSourceType::Microphone => "Microphone",
        }
    }

    /// Which devices a source records from: the ones that play for system
    /// audio, the ones that record for a microphone.
    pub fn direction(&self) -> (r: Direction)
        ensures
            r == (match self {
                AudioSourceType::SystemAudio => Direction::Render,
                AudioSourceType::Microphone => Direction::Capture,
            }),
    {
        match self {
            AudioSourceType::SystemAudio => Direction::Render,
            AudioSourceType::Microphone => Direction::Capture,
        }
    }
}

impl Default for AudioSourceType {
    fn default() -> (r: Self)
        ensures
            r == AudioSourceType::SystemAudio,
    {
        AudioSourceType::SystemAudio
    }
}

/// What is recorded, and from which device.
#[derive(Debug)]
pub struct AudioSettings {
    pub enabled: bool,
    pub source_type: AudioSourceType,
    pub device_id: Option<String>,
}

impl Default for AudioSettings {
    fn default() -> (r: Self)
        ensures
            r == (AudioSettings {
                enabled: true,
                source_type: AudioSourceType::SystemAudio,
                device_id: None,
            }),
    {
        AudioSettings {
            enabled: true,
            source_type: AudioSourceType::SystemAudio,
            device_id: None,
        }
    }
}

impl Clone for AudioDevice {
    fn clone(&self) -> (r: Self)
        ensures
            r == *self,
    {
        AudioDevice { name: self.name.clone(), id: self.id.clone() }
    }
}

impl Clone for AudioSettings {
    fn clone(&self) -> (r: Self)
        ensures
            r == *self,
    {
        AudioSettings {
            enabled: self.enabled,
            source_type: self.source_type,
            device_id: match &self.device_id {
                Some(id) => Some(id.clone()),
                None => None,
            },
        }
    }
}

/// What a device told about itself; either may be missing.
pub struct DeviceEntry {
    pub name: Option<String>,
    pub id: Option<String>,
}

/// A text that may be missing, with the empty text in its place.
pub open spec fn text_or_empty(t: Option<String>) -> Seq<char> {
    match t {
        Some(s) => s@,
        None => Seq::empty(),
    }
}

/// What one enumerated entry adds to the list: nothing where the device could
/// not be had or has no name.
pub open spec fn listed(entry: Option<DeviceEntry>) -> Seq<(Seq<char>, Seq<char>)> {
    match entry {
        Some(e) => if text_or_empty(e.name).len() > 0 {
            seq![(text_or_empty(e.name), text_or_empty(e.id))]
        } else {
            Seq::empty()
        },
        None => Seq::empty(),
    }
}

/// The devices that enumerated entries make up, in their order.
pub open spec fn listed_devices(entries: Seq<Option<DeviceEntry>>) -> Seq<(Seq<char>, Seq<char>)>
    decreases entries.len(),
{
    if entries.len() == 0 {
        Seq::empty()
    } else {
        listed_devices(entries.drop_last()) + listed(entries.last())
    }
}

fn copied_or_empty(t: &Option<String>) -> (r: String)
    ensures
        r@ == text_or_empty(*t),
{
    match t {
        Some(s) => s.clone(),
        None => String::new(),
    }
}

/// The devices of an enumeration: those that could be had and have a name. An
/// enumeration that failed has none.
pub fn list_audio_devices(entries: Option<Vec<Option<DeviceEntry>>>) -> (r: Vec<AudioDevice>)
    ensures
        device_views(r@) == (match entries {
            Some(e) => listed_devices(e@),
            None => Seq::empty(),
        }),
{
    let mut devices: Vec<AudioDevice> = Vec::new();
    let entries: Vec<Option<DeviceEntry>> = match entries {
        Some(e) => e,
        None => {
            assert(device_views(devices@) =~= Seq::<(Seq<char>, Seq<char>)>::empty());
            return devices;
        },
    };
    let mut i: usize = 0;
    assert(device_views(devices@) =~= listed_devices(entries@.take(0)));
    while i < entries.len()
        invariant
            i <= entries@.len(),
            device_views(devices@) == listed_devices(entries@.take(i as int)),
        decreases entries@.len() - i,
    {
        let ghost before = device_views(devices@);
        assert(entries@.take(i + 1).drop_last() == entries@.take(i as int));
        assert(entries@.take(i + 1).last() == entries@[i as int]);
        match &entries[i] {
            Some(e) => {
                let name: String = copied_or_empty(&e.name);
                let id: String = copied_or_empty(&e.id);
                if !name.as_str().is_empty() {
                    devices.push(AudioDevice { name: name, id: id });
                }
            },
            None => {},
        }
        assert(device_views(devices@) =~= before + listed(entries@[i as int]));
        i = i + 1;
    }
    assert(entries@.take(entries@.len() as int) == entries@);
    devices
}

/// The device that a recording is made from.
pub enum DeviceChoice {
    /// A device by its identifier.
    Given(String),
    /// The default device of a direction.
    Standard(Direction),
}

/// What the recording thread has to do next.
pub enum AudioStep {
    /// Open the device, prepare a stream of float samples at `SAMPLE_RATE` with
    /// `CHANNELS` channels, make an encoder and start the stream.
    Open(DeviceChoice),
    /// Look for a request to stop.
    PollStop,
    /// Take the samples that the device holds ready.
    Read,
    /// Encode one frame of samples.
    Encode(Vec<u8>),
    /// Offer a packet to the stream; it is dropped where there is no room.
    Send(Vec<u8>),
    /// Wait until the device has more.
    Wait,
    /// Stop the stream.
    Stop,
    /// Leave the thread.
    Exit(Result<(), String>),
}

/// What came of the last step.
pub enum AudioEvent {
    Opened(Result<(), String>),
    StopPolled(bool),
    ReadDone(Result<Vec<u8>, String>),
    Encoded(Result<Vec<u8>, String>),
    Sent(bool),
    Waited(bool),
    Stopped(Result<(), String>),
}

/// Where the recording stands: which event is awaited.
#[derive(Clone, Copy, PartialEq, Eq, Structural)]
pub enum AudioPhase {
    Opening,
    PollingStop,
    Reading,
    Encoding,
    Sending,
    Waiting,
    Stopping,
    Over,
}

/// The recording: samples not yet encoded, in the order in which they came.
pub struct AudioLoop {
    phase: AudioPhase,
    buffer: Vec<u8>,
    iteration: u64,
}

impl AudioLoop {
    /// Which event is awaited.
    pub closed spec fn awaited(&self) -> AudioPhase {
        self.phase
    }

    /// The samples not yet encoded.
    pub closed spec fn pending(&self) -> Seq<u8> {
        self.buffer@
    }

    /// How often the device was read.
    pub closed spec fn turns(&self) -> u64 {
        self.iteration
    }

    /// Whether an event answers the last step.
    pub open spec fn expects(&self, event: AudioEvent) -> bool {
        match event {
            AudioEvent::Opened(_) => self.awaited() == AudioPhase::Opening,
            AudioEvent::StopPolled(stop) => self.awaited() == AudioPhase::PollingStop && (stop
                || self.turns() < u64::MAX),
            AudioEvent::ReadDone(_) => self.awaited() == AudioPhase::Reading,
            AudioEvent::Encoded(_) => self.awaited() == AudioPhase::Encoding,
            AudioEvent::Sent(_) => self.awaited() == AudioPhase::Sending,
            AudioEvent::Waited(_) => self.awaited() == AudioPhase::Waiting,
            AudioEvent::Stopped(_) => self.awaited() == AudioPhase::Stopping,
        }
    }

    /// Whether `step` goes on with `samples` at hand: a whole frame is encoded
    /// at once, less than a frame waits for more.
    pub open spec fn goes_on(&self, samples: Seq<u8>, step: AudioStep) -> bool {
        if samples.len() >= FRAME_BYTES {
            &&& self.awaited() == AudioPhase::Encoding
            &&& self.pending() == samples.skip(FRAME_BYTES as int)
            &&& step matches AudioStep::Encode(frame) && frame@ == samples.take(FRAME_BYTES as int)
        } else {
            &&& self.awaited() == AudioPhase::Waiting
            &&& self.pending() == samples
            &&& step == AudioStep::Wait
        }
    }

    /// Whether `after` and `step` are what follows on an event.
    pub open spec fn follows(&self, event: AudioEvent, after: AudioLoop, step: AudioStep) -> bool {
        match event {
            AudioEvent::Opened(result) => {
                &&& after.pending() == self.pending()
                &&& after.turns() == self.turns()
                &&& match result {
                    Ok(_) => after.awaited() == AudioPhase::PollingStop && step
                        == AudioStep::PollStop,
                    Err(e) => after.awaited() == AudioPhase::Over && step == AudioStep::Exit(
                        Err(e),
                    ),
                }
            },
            AudioEvent::StopPolled(stop) => {
                &&& after.pending() == self.pending()
                &&& if stop {
                    after.awaited() == AudioPhase::Stopping && after.turns() == self.turns() && step
                        == AudioStep::Stop
                } else {
                    after.awaited() == AudioPhase::Reading && after.turns() == self.turns() + 1
                        && step == AudioStep::Read
                }
            },
            AudioEvent::ReadDone(result) => {
                &&& after.turns() == self.turns()
                &&& match result {
                    Ok(samples) => after.goes_on(self.pending() + samples@, step),
                    Err(e) => after.awaited() == AudioPhase::Over && after.pending()
                        == self.pending() && step == AudioStep::Exit(Err(e)),
                }
            },
            AudioEvent::Encoded(result) => {
                &&& after.turns() == self.turns()
                &&& match result {
                    Ok(packet) => after.awaited() == AudioPhase::Sending && after.pending()
                        == self.pending() && step == AudioStep::Send(packet),
                    Err(_) => after.goes_on(self.pending(), step),
                }
            },
            AudioEvent::Sent(_) => {
                &&& after.turns() == self.turns()
                &&& after.goes_on(self.pending(), step)
            },
            AudioEvent::Waited(more) => {
                &&& after.turns() == self.turns()
                &&& after.pending() == self.pending()
                &&& if more {
                    after.awaited() == AudioPhase::PollingStop && step == AudioStep::PollStop
                } else {
                    after.awaited() == AudioPhase::Stopping && step == AudioStep::Stop
                }
            },
            AudioEvent::Stopped(result) => {
                &&& after.awaited() == AudioPhase::Over
                &&& after.turns() == self.turns()
                &&& after.pending() == self.pending()
                &&& step == AudioStep::Exit(result)
            },
        }
    }

    /// Begins a recording. Where audio is switched off there is nothing to do;
    /// otherwise the chosen device is opened, or the default one of the
    /// source's direction.
    pub fn start(settings: &AudioSettings) -> (r: (AudioLoop, AudioStep))
        ensures
            r.0.pending() == Seq::<u8>::empty(),
            r.0.turns() == 0,
            if !settings.enabled {
                r.0.awaited() == AudioPhase::Over && r.1 == AudioStep::Exit(Ok(()))
            } else {
                r.0.awaited() == AudioPhase::Opening && r.1 == AudioStep::Open(
                    match settings.device_id {
                        Some(id) => DeviceChoice::Given(id),
                        None => DeviceChoice::Standard(
                            match settings.source_type {
                                AudioSourceType::SystemAudio => Direction::Render,
                                AudioSourceType::Microphone => Direction::Capture,
                            },
                        ),
                    },
                )
            },
    {
        if !settings.enabled {
            return (
                AudioLoop { phase: AudioPhase::Over, buffer: Vec::new(), iteration: 0 },
                AudioStep::Exit(Ok(())),
            );
        }
        let choice = match &settings.device_id {
            Some(id) => DeviceChoice::Given(id.clone()),
            None => DeviceChoice::Standard(settings.source_type.direction()),
        };
        (
            AudioLoop { phase: AudioPhase::Opening, buffer: Vec::new(), iteration: 0 },
            AudioStep::Open(choice),
        )
    }

    fn go_on(&mut self) -> (step: AudioStep)
        ensures
            final(self).goes_on(old(self).pending(), step),
            final(self).turns() == old(self).turns(),
    {
        if self.buffer.len() >= FRAME_BYTES {
            let mut frame: Vec<u8> = self.buffer.split_off(FRAME_BYTES);
            std::mem::swap(&mut frame, &mut self.buffer);
            self.phase = AudioPhase::Encoding;
            AudioStep::Encode(frame)
        } else {
            self.phase = AudioPhase::Waiting;
            AudioStep::Wait
        }
    }

    /// Takes what came of the last step and says what to do next.
    pub fn on_event(&mut self, event: AudioEvent) -> (step: AudioStep)
        requires
            old(self).expects(event),
        ensures
            old(self).follows(event, *final(self), step),
    {
        match event {
            AudioEvent::Opened(Ok(_)) => {
                self.phase = AudioPhase::PollingStop;
                AudioStep::PollStop
            },
            AudioEvent::Opened(Err(e)) => {
                self.phase = AudioPhase::Over;
                AudioStep::Exit(Err(e))
            },
            AudioEvent::StopPolled(stop) => {
                if stop {
                    self.phase = AudioPhase::Stopping;
                    AudioStep::Stop
                } else {
                    self.iteration = self.iteration + 1;
                    self.phase = AudioPhase::Reading;
                    AudioStep::Read
                }
            },
            AudioEvent::ReadDone(Ok(samples)) => {
                let mut samples: Vec<u8> = samples;
                self.buffer.append(&mut samples);
                self.go_on()
            },
            AudioEvent::ReadDone(Err(e)) => {
                self.phase = AudioPhase::Over;
                AudioStep::Exit(Err(e))
            },
            AudioEvent::Encoded(Ok(packet)) => {
                self.phase = AudioPhase::Sending;
                AudioStep::Send(packet)
            },
            AudioEvent::Encoded(Err(_)) => self.go_on(),
            AudioEvent::Sent(_) => self.go_on(),
            AudioEvent::Waited(more) => {
                if more {
                    self.phase = AudioPhase::PollingStop;
                    AudioStep::PollStop
                } else {
                    self.phase = AudioPhase::Stopping;
                    AudioStep::Stop
                }
            },
            AudioEvent::Stopped(result) => {
                self.phase = AudioPhase::Over;
                AudioStep::Exit(result)
            },
        }
    }
}

/// The samples that a step hands to the encoder.
pub open spec fn encoded_samples(step: AudioStep) -> Seq<u8> {
    match step {
        AudioStep::Encode(frame) => frame@,
        _ => Seq::empty(),
    }
}

/// The samples that an event brings in.
pub open spec fn read_samples(event: AudioEvent) -> Seq<u8> {
    match event {
        AudioEvent::ReadDone(Ok(samples)) => samples@,
        _ => Seq::empty(),
    }
}

/// No sample is lost, doubled or moved: what a step hands to the encoder and
/// what stays behind are, in this order, what was there and what came in.
pub proof fn samples_keep_their_order(
    before: AudioLoop,
    event: AudioEvent,
    after: AudioLoop,
    step: AudioStep,
)
    requires
        before.expects(event),
        before.follows(event, after, step),
    ensures
        encoded_samples(step) + after.pending() == before.pending() + read_samples(event),
        encoded_samples(step).len() == 0 || encoded_samples(step).len() == FRAME_BYTES,
{
    assert(encoded_samples(step) + after.pending() =~= before.pending() + read_samples(event));
}

/// The device is waited for only when less than a frame is at hand.
pub proof fn waits_only_without_a_frame(
    before: AudioLoop,
    event: AudioEvent,
    after: AudioLoop,
    step: AudioStep,
)
    requires
        before.expects(event),
        before.follows(event, after, step),
        step == AudioStep::Wait,
    ensures
        after.pending().len() < FRAME_BYTES,
{
}

/// A frame of samples is a fiftieth of a second of sound in both channels, four
/// bytes a sample.
pub proof fn frames_last_a_fiftieth_of_a_second()
    ensures
        FRAME_SIZE * 50 == SAMPLE_RATE,
        SAMPLE_RATE == 48000,
        CHANNELS == 2,
        FRAME_BYTES == FRAME_SIZE * CHANNELS * 4,
{
}

/// Samples are encoded in frames of 7680 bytes, the oldest first, as soon as
/// there are enough, and wait otherwise; none is lost, doubled or moved on the
/// way.
pub proof fn samples_are_encoded_in_whole_frames(
    record: &&mut AudioLoop,
    before: AudioLoop,
    after: AudioLoop,
    event: AudioEvent,
    step: AudioStep,
)
    requires
        call_ensures(AudioLoop::on_event, (*record, event), step),
        before == **record,
        after == *final(*record),
        before.expects(event),
    ensures
        ({
            let samples = match event {
                AudioEvent::ReadDone(Ok(read)) => before.pending() + read@,
                _ => before.pending(),
            };
            match step {
                AudioStep::Encode(frame) => {
                    &&& frame@.len() == 7680
                    &&& frame@ + after.pending() == samples
                },
                _ => after.pending() == samples,
            }
        }),
        step is Wait ==> after.pending().len() < 7680,
        (event matches AudioEvent::ReadDone(Ok(_))) || event is Sent || (
        event matches AudioEvent::Encoded(Err(_))) ==> step is Encode || step is Wait,
        step is Encode || step is Wait ==> (event matches AudioEvent::ReadDone(Ok(_))) || event
            is Sent || (event matches AudioEvent::Encoded(Err(_))),
{
    if let AudioStep::Encode(frame) = step {
        let samples = match event {
            AudioEvent::ReadDone(Ok(read)) => before.pending() + read@,
            _ => before.pending(),
        };
        assert(frame@ + after.pending() =~= samples);
    }
}

/// An encoded packet is sent as it is, and a packet that cannot be encoded or
/// sent does not end the recording.
pub proof fn packets_are_sent_as_they_are(
    record: &&mut AudioLoop,
    before: AudioLoop,
    after: AudioLoop,
    event: AudioEvent,
    step: AudioStep,
)
    requires
        call_ensures(AudioLoop::on_event, (*record, event), step),
        before == **record,
        after == *final(*record),
        before.expects(event),
    ensures
        event matches AudioEvent::Encoded(Ok(packet)) ==> step == AudioStep::Send(packet),
        step matches AudioStep::Send(packet) ==> event == AudioEvent::Encoded(Ok(packet)),
        event is Encoded || event is Sent ==> step !is Stop && step !is Exit,
{
}

/// The recording goes on until it is asked to stop or the device gives up, and
/// is left with what came of opening, reading or stopping; while it goes on it
/// looks for a request before every reading.
pub proof fn recordings_go_on_until_stopped(
    record: &&mut AudioLoop,
    before: AudioLoop,
    after: AudioLoop,
    event: AudioEvent,
    step: AudioStep,
)
    requires
        call_ensures(AudioLoop::on_event, (*record, event), step),
        before == **record,
        after == *final(*record),
        before.expects(event),
    ensures
        step is Stop <==> event == AudioEvent::StopPolled(true) || event == AudioEvent::Waited(
            false,
        ),
        step is Read <==> event == AudioEvent::StopPolled(false),
        step is PollStop <==> (event matches AudioEvent::Opened(Ok(_))) || event
            == AudioEvent::Waited(true),
        step is Open ==> false,
        step is Exit <==> event is Stopped || (event matches AudioEvent::Opened(Err(_))) || (
        event matches AudioEvent::ReadDone(Err(_))),
        step is Exit <==> after.awaited() == AudioPhase::Over,
        event matches AudioEvent::Stopped(r) ==> step == AudioStep::Exit(r),
        event matches AudioEvent::Opened(Err(e)) ==> step == AudioStep::Exit(Err(e)),
        event matches AudioEvent::ReadDone(Err(e)) ==> step == AudioStep::Exit(Err(e)),
        after.turns() == before.turns() + (if step is Read {
            1int
        } else {
            0int
        }),
{
}

/// A recording opens the device that was chosen, or the default one: of the
/// devices that play for the sound of the system, of those that record for the
/// microphone. Where sound is off nothing is opened.
pub proof fn chosen_devices_are_opened(settings: AudioSettings, r: (AudioLoop, AudioStep))
    requires
        call_ensures(AudioLoop::start, (&settings,), r),
    ensures
        !settings.enabled ==> r.1 == AudioStep::Exit(Ok(())) && r.0.awaited() == AudioPhase::Over,
        settings.enabled ==> r.0.awaited() == AudioPhase::Opening && match settings.device_id {
            Some(id) => r.1 == AudioStep::Open(DeviceChoice::Given(id)),
            None => r.1 == AudioStep::Open(
                DeviceChoice::Standard(
                    if settings.source_type is Microphone {
                        Direction::Capture
                    } else {
                        Direction::Render
                    },
                ),
            ),
        },
        r.0.pending().len() == 0,
{
}

/// One more entry adds its device at the end, with an empty identifier where it
/// has none, and nothing where it could not be had or has no name.
pub proof fn devices_are_listed_as_they_come(
    entries: Vec<Option<DeviceEntry>>,
    more: Vec<Option<DeviceEntry>>,
    r: Vec<AudioDevice>,
    s: Vec<AudioDevice>,
    entry: Option<DeviceEntry>,
)
    requires
        call_ensures(list_audio_devices, (Some(entries),), r),
        call_ensures(list_audio_devices, (Some(more),), s),
        more@ == entries@.push(entry),
    ensures
        ({
            let named = entry matches Some(e) && (e.name matches Some(name) && name@.len() > 0);
            &&& s@.len() == r@.len() + (if named {
                1int
            } else {
                0int
            })
            &&& forall|i: int|
                0 <= i < r@.len() ==> (#[trigger] s@[i]).name@ == r@[i].name@ && s@[i].id@
                    == r@[i].id@
            &&& named ==> {
                let e = entry->Some_0;
                &&& s@.last().name@ == e.name->Some_0@
                &&& match e.id {
                    Some(id) => s@.last().id@ == id@,
                    None => s@.last().id@.len() == 0,
                }
            }
        }),
        entries@.len() == 0 ==> r@.len() == 0,
{
    assert(more@.drop_last() =~= entries@);
    let a = device_views(r@);
    let b = device_views(s@);
    assert(a.len() == r@.len() && b.len() == s@.len());
    assert(b == a + listed(entry));
    assert forall|i: int| 0 <= i < r@.len() implies (#[trigger] s@[i]).name@ == r@[i].name@
        && s@[i].id@ == r@[i].id@ by {
        assert(b[i] == a[i]);
        assert(b[i] == device_view(s@[i]));
        assert(a[i] == device_view(r@[i]));
    }
    if s@.len() > r@.len() {
        assert(b[s@.len() - 1] == device_view(s@[s@.len() - 1]));
    }
}

} // verus!
