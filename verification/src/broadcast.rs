//! One capture and one encoder for all viewers: who is subscribed, when key
//! frames are due, and how the stream is paced.

use std::time::Duration;

use bytes::Bytes;
use vstd::prelude::*;
use vstd::string::*;

use crate::annexb::{
    buffer_rows, holds_units, joined_units, joined_units_stand_in_order, nals_to_sample_data,
};
use crate::text::joined;
use crate::trusted::{buffer_bytes, longest_nanos, nanos};

verus! {

/// One encoded frame as it is sent to the viewers.
pub struct VideoFrame {
    pub sample_data: Bytes,
    pub duration: Duration,
}

/// One encoded stretch of sound as it is sent to the viewers.
pub struct AudioPacket {
    pub data: Vec<u8>,
    pub duration: Duration,
}

/// Who watches: whether the stream runs, for how many, and whether a key frame
/// was asked for.
pub struct Broadcaster {
    pub running: bool,
    pub subscriber_count: u32,
    pub needs_keyframe: bool,
}

/// How many encoded frames wait for a slow viewer.
pub const VIDEO_BACKLOG: usize = 4;

/// How many stretches of sound wait for a slow viewer.
pub const AUDIO_BACKLOG: usize = 64;

impl Broadcaster {
    /// No stream and no viewers.
    pub fn new() -> (r: Self)
        ensures
            r == (Broadcaster { running: false, subscriber_count: 0, needs_keyframe: false }),
    {
        Broadcaster { running: false, subscriber_count: 0, needs_keyframe: false }
    }

    /// Marks the stream as running; tells whether it has to be started.
    pub fn ensure_running(&mut self) -> (start: bool)
        ensures
            start == !old(self).running,
            *final(self) == (Broadcaster { running: true, ..*old(self) }),
    {
        let start: bool = !self.running;
        self.running = true;
        start
    }

    /// Marks the stream as ended.
    pub fn stopped(&mut self)
        ensures
            *final(self) == (Broadcaster { running: false, ..*old(self) }),
    {
        self.running = false;
    }

    /// Counts one more viewer, who needs a key frame to begin with.
    pub fn add_subscriber(&mut self)
        ensures
            *final(self) == (Broadcaster {
                subscriber_count: old(self).subscriber_count.wrapping_add(1),
                needs_keyframe: true,
                ..*old(self)
            }),
    {
        self.subscriber_count = self.subscriber_count.wrapping_add(1);
        self.needs_keyframe = true;
    }

    /// Counts one viewer less.
    pub fn remove_subscriber(&mut self)
        ensures
            *final(self) == (Broadcaster {
                subscriber_count: old(self).subscriber_count.wrapping_sub(1),
                ..*old(self)
            }),
    {
        self.subscriber_count = self.subscriber_count.wrapping_sub(1);
    }

    /// Asks for a key frame.
    pub fn request_keyframe(&mut self)
        ensures
            *final(self) == (Broadcaster { needs_keyframe: true, ..*old(self) }),
    {
        self.needs_keyframe = true;
    }

    /// Tells whether a key frame was asked for, and forgets it.
    pub fn take_keyframe_request(&mut self) -> (r: bool)
        ensures
            r == old(self).needs_keyframe,
            *final(self) == (Broadcaster { needs_keyframe: false, ..*old(self) }),
    {
        let asked: bool = self.needs_keyframe;
        self.needs_keyframe = false;
        asked
    }
}

/// A viewer who comes and goes leaves the count as it was.
pub proof fn coming_and_going_cancels(count: u32)
    ensures
        count.wrapping_add(1).wrapping_sub(1) == count,
{
}

/// Of two askers in a row only the first has to start the stream, and that one
/// only if it does not run; the end of the stream makes it startable again.
pub proof fn the_stream_is_started_once(
    first: &&mut Broadcaster,
    second: &&mut Broadcaster,
    third: &&mut Broadcaster,
    a: bool,
    b: bool,
)
    requires
        call_ensures(Broadcaster::ensure_running, (*first,), a),
        call_ensures(Broadcaster::ensure_running, (*second,), b),
        (**second).running == final(*first).running,
        call_ensures(Broadcaster::stopped, (*third,), ()),
    ensures
        a == !old(*first).running,
        !b,
        final(*second).running,
        !final(*third).running,
        final(*first).subscriber_count == old(*first).subscriber_count,
        final(*first).needs_keyframe == old(*first).needs_keyframe,
        final(*third).subscriber_count == old(*third).subscriber_count,
        final(*third).needs_keyframe == old(*third).needs_keyframe,
{
}

/// A viewer who comes is one more and asks for a key frame; one who goes is one
/// less and asks for nothing; neither starts or ends the stream.
pub proof fn viewers_are_counted_one_by_one(come: &&mut Broadcaster, go: &&mut Broadcaster)
    requires
        call_ensures(Broadcaster::add_subscriber, (*come,), ()),
        call_ensures(Broadcaster::remove_subscriber, (*go,), ()),
        (**come).subscriber_count < u32::MAX,
        (**go).subscriber_count > 0,
    ensures
        final(*come).subscriber_count == old(*come).subscriber_count + 1,
        final(*come).needs_keyframe,
        final(*come).running == old(*come).running,
        final(*go).subscriber_count == old(*go).subscriber_count - 1,
        final(*go).needs_keyframe == old(*go).needs_keyframe,
        final(*go).running == old(*go).running,
{
}

/// A request for a key frame is taken once: taken after it was made it is
/// there, and taken again it is gone.
pub proof fn requests_are_taken_once(
    ask: &&mut Broadcaster,
    take: &&mut Broadcaster,
    again: &&mut Broadcaster,
    a: bool,
    b: bool,
)
    requires
        call_ensures(Broadcaster::request_keyframe, (*ask,), ()),
        call_ensures(Broadcaster::take_keyframe_request, (*take,), a),
        call_ensures(Broadcaster::take_keyframe_request, (*again,), b),
        **take == *final(*ask),
        **again == *final(*take),
    ensures
        a,
        !b,
        final(*again).subscriber_count == old(*ask).subscriber_count,
        final(*again).running == old(*ask).running,
{
}

/// What came of the attempt to capture a frame.
pub enum GrabOutcome {
    /// A frame of this width and height.
    Frame(u32, u32),
    /// Nothing changed on the screen.
    Nothing,
    /// The capture failed.
    Failed(String),
    /// The attempt could not be made.
    NotRun(String),
}

/// What came of the last step of the stream.
pub enum LoopEvent {
    Grabbed(GrabOutcome),
    EncoderReady(Result<(), String>),
    Encoded(Result<Vec<Bytes>, String>),
    Published,
    AudioStarted(bool, Duration),
    AudioPolled(Option<Vec<u8>>),
    AudioPublished,
    Clock(Duration),
    Slept,
}

/// What the stream has to do next. Steps with a delay sleep that long first.
pub enum LoopStep {
    /// Capture a frame.
    Grab { delay_ms: u64 },
    /// Make an encoder for frames of this size and rate.
    CreateEncoder { width: u32, height: u32, fps: u32 },
    /// Encode the captured frame, as a key frame or not.
    Encode { keyframe: bool },
    /// Send an encoded frame to all viewers, and record how long it took unless
    /// it is the first one.
    Publish { frame: VideoFrame, timed: bool },
    /// Start recording sound.
    StartAudio,
    /// Look for a packet of sound.
    PollAudio { delay_ms: u64 },
    /// Send a packet of sound to all viewers.
    PublishAudio(AudioPacket),
    /// Read the clock.
    ReadClock { delay_ms: u64 },
    /// Sleep until the next frame is due.
    Sleep(Duration),
    /// End the stream.
    Stop(Result<(), String>),
}

/// Where the stream stands: which event is awaited.
#[derive(Clone, Copy, PartialEq, Eq, Structural)]
pub enum LoopPhase {
    FirstGrab,
    FirstEncoder,
    FirstEncode,
    FirstPublish,
    StartingAudio,
    Grabbing,
    /// A new encoder is being made; then the frame is encoded, as a key frame or
    /// not.
    Recreating(bool),
    Encoding,
    Publishing,
    PollingAudio,
    PublishingAudio,
    Pacing,
    Sleeping,
    Over,
}

/// The stream: its frame rate, the frame size that the encoder was made for,
/// how many frames were captured, when the next one is due, and whether sound
/// is recorded.
pub struct BroadcastLoop {
    pub fps: u32,
    pub width: u32,
    pub height: u32,
    pub frame_count: u64,
    pub next_frame_time: Duration,
    pub frame_duration: Duration,
    pub audio: bool,
    pub phase: LoopPhase,
}

/// The pause before the first frame is tried again.
pub const FIRST_RETRY_MS: u64 = 10;

/// The pause after a failed capture.
pub const CAPTURE_RETRY_MS: u64 = 100;

/// How long one packet of sound lasts.
pub const AUDIO_PACKET_MS: u64 = 20;

/// Whether `step` ends the stream with an error that says `what` and then `why`.
pub open spec fn stops_with(step: LoopStep, what: Seq<char>, why: String) -> bool {
    step matches LoopStep::Stop(Err(m)) && m@ == what + why@
}

/// Whether `f` carries the units of `nals` for one frame of the stream.
pub open spec fn carries(f: VideoFrame, nals: Seq<Bytes>, duration: Duration) -> bool {
    buffer_bytes(f.sample_data) == joined_units(buffer_rows(nals)) && f.duration == duration
}

impl BroadcastLoop {
    /// Key frames are due every two seconds' worth of frames.
    pub open spec fn keyframe_interval(self) -> int {
        self.fps * 2
    }

    /// Whether the rate can be counted with and frames last as long as it says.
    pub open spec fn wf(self) -> bool {
        &&& 0 < self.fps
        &&& self.fps * 2 <= u32::MAX
        &&& nanos(self.frame_duration) == (1000int / self.fps as int) * 1_000_000
    }

    /// Whether an event answers the last step.
    pub open spec fn expects(self, event: LoopEvent) -> bool {
        match event {
            LoopEvent::Grabbed(_) => self.phase == LoopPhase::FirstGrab || self.phase
                == LoopPhase::Grabbing && self.frame_count < u64::MAX,
            LoopEvent::EncoderReady(_) => self.phase == LoopPhase::FirstEncoder
                || self.phase is Recreating,
            LoopEvent::Encoded(_) => self.phase == LoopPhase::FirstEncode || self.phase
                == LoopPhase::Encoding,
            LoopEvent::Published => self.phase == LoopPhase::FirstPublish || self.phase
                == LoopPhase::Publishing,
            LoopEvent::AudioStarted(_, _) => self.phase == LoopPhase::StartingAudio,
            LoopEvent::AudioPolled(_) => self.phase == LoopPhase::PollingAudio,
            LoopEvent::AudioPublished => self.phase == LoopPhase::PublishingAudio,
            LoopEvent::Clock(_) => self.phase == LoopPhase::Pacing && nanos(self.next_frame_time)
                + nanos(self.frame_duration) <= longest_nanos(),
            LoopEvent::Slept => self.phase == LoopPhase::Sleeping,
        }
    }

    /// The same stream in another phase.
    pub open spec fn at(self, phase: LoopPhase) -> BroadcastLoop {
        BroadcastLoop { phase: phase, ..self }
    }

    /// A new turn: the stream ends once nobody watches.
    pub open spec fn turns(self, viewers: u32, after: BroadcastLoop, step: LoopStep) -> bool {
        if viewers == 0 {
            after == self.at(LoopPhase::Over) && step == LoopStep::Stop(Ok(()))
        } else {
            after == self.at(LoopPhase::Grabbing) && step == (LoopStep::Grab { delay_ms: 0 })
        }
    }

    /// The second half of a turn: sound where it is recorded, then the clock.
    pub open spec fn attends_audio(
        self,
        delay_ms: u64,
        after: BroadcastLoop,
        step: LoopStep,
    ) -> bool {
        if self.audio {
            after == self.at(LoopPhase::PollingAudio) && step == (LoopStep::PollAudio { delay_ms })
        } else {
            after == self.at(LoopPhase::Pacing) && step == (LoopStep::ReadClock { delay_ms })
        }
    }

    /// Whether the next captured frame becomes a key frame: when one was asked
    /// for, and at every whole interval.
    pub open spec fn next_is_keyframe(self, asked: bool) -> bool {
        asked || (self.frame_count + 1) % self.keyframe_interval() == 0
    }

    /// The first frame: an encoder is made for it; it is tried again until
    /// something shows, and a failure ends the stream.
    pub open spec fn takes_first(
        self,
        outcome: GrabOutcome,
        after: BroadcastLoop,
        step: LoopStep,
    ) -> bool {
        match outcome {
            GrabOutcome::Frame(w, h) => after == (BroadcastLoop {
                width: w,
                height: h,
                phase: LoopPhase::FirstEncoder,
                ..self
            }) && step == (LoopStep::CreateEncoder { width: w, height: h, fps: self.fps }),
            GrabOutcome::Nothing => after == self && step == (LoopStep::Grab {
                delay_ms: FIRST_RETRY_MS,
            }),
            GrabOutcome::Failed(e) => after == self.at(LoopPhase::Over) && stops_with(
                step,
                "capture error: "@,
                e,
            ),
            GrabOutcome::NotRun(e) => after == self.at(LoopPhase::Over) && stops_with(
                step,
                "spawn error: "@,
                e,
            ),
        }
    }

    /// What follows on an event: the stream `after`, the viewers `after_viewers`
    /// and the next step.
    pub open spec fn follows(
        self,
        viewers: Broadcaster,
        event: LoopEvent,
        after: BroadcastLoop,
        after_viewers: Broadcaster,
        step: LoopStep,
    ) -> bool {
        match event {
            LoopEvent::Grabbed(outcome) => if self.phase == LoopPhase::FirstGrab {
                after_viewers == viewers && self.takes_first(outcome, after, step)
            } else {
                match outcome {
                    GrabOutcome::Frame(w, h) => {
                        let keyframe = self.next_is_keyframe(viewers.needs_keyframe);
                        let counted = BroadcastLoop {
                            frame_count: (self.frame_count + 1) as u64,
                            ..self
                        };
                        &&& after_viewers == (Broadcaster { needs_keyframe: false, ..viewers })
                        &&& if w != self.width || h != self.height {
                            after == (BroadcastLoop {
                                width: w,
                                height: h,
                                phase: LoopPhase::Recreating(keyframe),
                                ..counted
                            }) && step == (LoopStep::CreateEncoder {
                                width: w,
                                height: h,
                                fps: self.fps,
                            })
                        } else {
                            after == counted.at(LoopPhase::Encoding) && step == (LoopStep::Encode {
                                keyframe,
                            })
                        }
                    },
                    GrabOutcome::Failed(_) => after_viewers == viewers && self.attends_audio(
                        CAPTURE_RETRY_MS,
                        after,
                        step,
                    ),
                    _ => after_viewers == viewers && self.attends_audio(0, after, step),
                }
            },
            LoopEvent::EncoderReady(result) => {
                &&& after_viewers == viewers
                &&& match (self.phase, result) {
                    (LoopPhase::Recreating(keyframe), Ok(_)) => after == self.at(
                        LoopPhase::Encoding,
                    ) && step == (LoopStep::Encode { keyframe }),
                    (LoopPhase::Recreating(_), Err(e)) => after == self.at(LoopPhase::Over)
                        && stops_with(step, "NVENC reinit: "@, e),
                    (_, Ok(_)) => after == self.at(LoopPhase::FirstEncode) && step
                        == (LoopStep::Encode { keyframe: true }),
                    (_, Err(e)) => after == self.at(LoopPhase::Over) && stops_with(
                        step,
                        "NVENC init: "@,
                        e,
                    ),
                }
            },
            LoopEvent::Encoded(result) => {
                &&& after_viewers == viewers
                &&& match result {
                    Ok(nals) => {
                        &&& after == self.at(
                            if self.phase == LoopPhase::FirstEncode {
                                LoopPhase::FirstPublish
                            } else {
                                LoopPhase::Publishing
                            },
                        )
                        &&& step matches LoopStep::Publish { frame, timed } && carries(
                            frame,
                            nals@,
                            self.frame_duration,
                        ) && timed == (self.phase != LoopPhase::FirstEncode)
                    },
                    Err(e) => if self.phase == LoopPhase::FirstEncode {
                        after == self.at(LoopPhase::Over) && stops_with(
                            step,
                            "encode keyframe: "@,
                            e,
                        )
                    } else {
                        self.attends_audio(0, after, step)
                    },
                }
            },
            LoopEvent::Published => {
                &&& after_viewers == viewers
                &&& if self.phase == LoopPhase::FirstPublish {
                    after == self.at(LoopPhase::StartingAudio) && step == LoopStep::StartAudio
                } else {
                    self.attends_audio(0, after, step)
                }
            },
            LoopEvent::AudioStarted(ok, now) => after_viewers == viewers && (BroadcastLoop {
                audio: ok,
                frame_count: 1,
                next_frame_time: now,
                ..self
            }).turns(viewers.subscriber_count, after, step),
            LoopEvent::AudioPolled(packet) => {
                &&& after_viewers == viewers
                &&& match packet {
                    Some(data) => {
                        &&& after == self.at(LoopPhase::PublishingAudio)
                        &&& step matches LoopStep::PublishAudio(p) && p.data == data && nanos(
                            p.duration,
                        ) == AUDIO_PACKET_MS * 1_000_000
                    },
                    None => after == self.at(LoopPhase::Pacing) && step == (LoopStep::ReadClock {
                        delay_ms: 0,
                    }),
                }
            },
            LoopEvent::AudioPublished => after_viewers == viewers && after == self.at(
                LoopPhase::Pacing,
            ) && step == (LoopStep::ReadClock { delay_ms: 0 }),
            LoopEvent::Clock(now) => after_viewers == viewers && self.paces(
                viewers.subscriber_count,
                now,
                after,
                step,
            ),
            LoopEvent::Slept => after_viewers == viewers && self.turns(
                viewers.subscriber_count,
                after,
                step,
            ),
        }
    }

    /// Pacing: the next frame is due one frame later; the stream sleeps until
    /// then, and where it is late by more than a frame it starts counting anew.
    pub open spec fn paces(
        self,
        viewers: u32,
        now: Duration,
        after: BroadcastLoop,
        step: LoopStep,
    ) -> bool {
        let due = nanos(self.next_frame_time) + nanos(self.frame_duration);
        if due > nanos(now) {
            &&& nanos(after.next_frame_time) == due
            &&& after == (BroadcastLoop {
                next_frame_time: after.next_frame_time,
                phase: LoopPhase::Sleeping,
                ..self
            })
            &&& step matches LoopStep::Sleep(d) && nanos(d) == due - nanos(now)
        } else {
            &&& if nanos(now) - due > nanos(self.frame_duration) {
                after.next_frame_time == now
            } else {
                nanos(after.next_frame_time) == due
            }
            &&& (BroadcastLoop { next_frame_time: after.next_frame_time, ..self }).turns(
                viewers,
                after,
                step,
            )
        }
    }

    /// Begins a stream; the first frame is captured.
    pub fn start(fps: u32, now: Duration) -> (r: (BroadcastLoop, LoopStep))
        requires
            0 < fps,
            fps * 2 <= u32::MAX,
        ensures
            r.0.wf(),
            r.0.fps == fps,
            r.0.phase == LoopPhase::FirstGrab,
            r.0.width == 0,
            r.0.height == 0,
            r.0.frame_count == 0,
            !r.0.audio,
            r.0.next_frame_time == now,
            r.1 == (LoopStep::Grab { delay_ms: 0 }),
    {
        let frame_duration: Duration = Duration::from_millis(1000 / fps as u64);
        (
            BroadcastLoop {
                fps: fps,
                width: 0,
                height: 0,
                frame_count: 0,
                next_frame_time: now,
                frame_duration: frame_duration,
                audio: false,
                phase: LoopPhase::FirstGrab,
            },
            LoopStep::Grab { delay_ms: 0 },
        )
    }

    fn turn(&mut self, viewers: u32) -> (step: LoopStep)
        ensures
            old(self).turns(viewers, *final(self), step),
    {
        if viewers == 0 {
            self.phase = LoopPhase::Over;
            LoopStep::Stop(Ok(()))
        } else {
            self.phase = LoopPhase::Grabbing;
            LoopStep::Grab { delay_ms: 0 }
        }
    }

    fn attend_audio(&mut self, delay_ms: u64) -> (step: LoopStep)
        ensures
            old(self).attends_audio(delay_ms, *final(self), step),
    {
        if self.audio {
            self.phase = LoopPhase::PollingAudio;
            LoopStep::PollAudio { delay_ms }
        } else {
            self.phase = LoopPhase::Pacing;
            LoopStep::ReadClock { delay_ms }
        }
    }

    fn stop(&mut self, what: &str, why: &String) -> (step: LoopStep)
        ensures
            *final(self) == old(self).at(LoopPhase::Over),
            stops_with(step, what@, *why),
    {
        self.phase = LoopPhase::Over;
        LoopStep::Stop(Err(joined(what, why)))
    }

    fn pace(&mut self, viewers: u32, now: Duration) -> (step: LoopStep)
        requires
            nanos(old(self).next_frame_time) + nanos(old(self).frame_duration) <= longest_nanos(),
        ensures
            old(self).paces(viewers, now, *final(self), step),
    {
        let due: Duration = match self.next_frame_time.checked_add(self.frame_duration) {
            Some(d) => d,
            None => self.next_frame_time,
        };
        self.next_frame_time = due;
        if due.as_nanos() > now.as_nanos() {
            self.phase = LoopPhase::Sleeping;
            return LoopStep::Sleep(due.saturating_sub(now));
        }
        if now.saturating_sub(due).as_nanos() > self.frame_duration.as_nanos() {
            self.next_frame_time = now;
        }
        self.turn(viewers)
    }

    fn first_frame(&mut self, outcome: GrabOutcome) -> (step: LoopStep)
        ensures
            old(self).takes_first(outcome, *final(self), step),
    {
        match outcome {
            GrabOutcome::Frame(width, height) => {
                self.width = width;
                self.height = height;
                self.phase = LoopPhase::FirstEncoder;
                LoopStep::CreateEncoder { width, height, fps: self.fps }
            },
            GrabOutcome::Nothing => LoopStep::Grab { delay_ms: FIRST_RETRY_MS },
            GrabOutcome::Failed(e) => self.stop("capture error: ", &e),
            GrabOutcome::NotRun(e) => self.stop("spawn error: ", &e),
        }
    }

    fn next_frame(&mut self, viewers: &mut Broadcaster, outcome: GrabOutcome) -> (step: LoopStep)
        requires
            old(self).phase == LoopPhase::Grabbing,
            old(self).frame_count < u64::MAX,
            old(self).wf(),
        ensures
            old(self).follows(
                *old(viewers),
                LoopEvent::Grabbed(outcome),
                *final(self),
                *final(viewers),
                step,
            ),
    {
        match outcome {
            GrabOutcome::Frame(width, height) => {
                self.frame_count = self.frame_count + 1;
                let asked: bool = viewers.take_keyframe_request();
                let interval: u64 = (self.fps * 2) as u64;
                let keyframe: bool = asked || self.frame_count % interval == 0;
                if width != self.width || height != self.height {
                    self.width = width;
                    self.height = height;
                    self.phase = LoopPhase::Recreating(keyframe);
                    LoopStep::CreateEncoder { width, height, fps: self.fps }
                } else {
                    self.phase = LoopPhase::Encoding;
                    LoopStep::Encode { keyframe }
                }
            },
            GrabOutcome::Nothing => self.attend_audio(0),
            GrabOutcome::Failed(_) => self.attend_audio(CAPTURE_RETRY_MS),
            GrabOutcome::NotRun(_) => self.attend_audio(0),
        }
    }

    /// Takes what came of the last step and says what to do next.
    pub fn on_event(&mut self, viewers: &mut Broadcaster, event: LoopEvent) -> (step: LoopStep)
        requires
            old(self).wf(),
            old(self).expects(event),
        ensures
            final(self).wf(),
            old(self).follows(*old(viewers), event, *final(self), *final(viewers), step),
    {
        match event {
            LoopEvent::Grabbed(outcome) => {
                if matches!(self.phase, LoopPhase::FirstGrab) {
                    self.first_frame(outcome)
                } else {
                    self.next_frame(viewers, outcome)
                }
            },
            LoopEvent::EncoderReady(result) => {
                match (self.phase, result) {
                    (LoopPhase::Recreating(keyframe), Ok(_)) => {
                        self.phase = LoopPhase::Encoding;
                        LoopStep::Encode { keyframe }
                    },
                    (LoopPhase::Recreating(_), Err(e)) => self.stop("NVENC reinit: ", &e),
                    (_, Ok(_)) => {
                        self.phase = LoopPhase::FirstEncode;
                        LoopStep::Encode { keyframe: true }
                    },
                    (_, Err(e)) => self.stop("NVENC init: ", &e),
                }
            },
            LoopEvent::Encoded(result) => {
                let first: bool = matches!(self.phase, LoopPhase::FirstEncode);
                match result {
                    Ok(nals) => {
                        self.phase = if first {
                            LoopPhase::FirstPublish
                        } else {
                            LoopPhase::Publishing
                        };
                        LoopStep::Publish {
                            frame: VideoFrame {
                                sample_data: nals_to_sample_data(nals.as_slice()),
                                duration: self.frame_duration,
                            },
                            timed: !first,
                        }
                    },
                    Err(e) => {
                        if first {
                            self.stop("encode keyframe: ", &e)
                        } else {
                            self.attend_audio(0)
                        }
                    },
                }
            },
            LoopEvent::Published => {
                if matches!(self.phase, LoopPhase::FirstPublish) {
                    self.phase = LoopPhase::StartingAudio;
                    LoopStep::StartAudio
                } else {
                    self.attend_audio(0)
                }
            },
            LoopEvent::AudioStarted(ok, now) => {
                self.audio = ok;
                self.frame_count = 1;
                self.next_frame_time = now;
                self.turn(viewers.subscriber_count)
            },
            LoopEvent::AudioPolled(packet) => {
                match packet {
                    Some(data) => {
                        self.phase = LoopPhase::PublishingAudio;
                        LoopStep::PublishAudio(
                            AudioPacket {
                                data: data,
                                duration: Duration::from_millis(AUDIO_PACKET_MS),
                            },
                        )
                    },
                    None => {
                        self.phase = LoopPhase::Pacing;
                        LoopStep::ReadClock { delay_ms: 0 }
                    },
                }
            },
            LoopEvent::AudioPublished => {
                self.phase = LoopPhase::Pacing;
                LoopStep::ReadClock { delay_ms: 0 }
            },
            LoopEvent::Clock(now) => self.pace(viewers.subscriber_count, now),
            LoopEvent::Slept => self.turn(viewers.subscriber_count),
        }
    }
}

/// A key frame that was asked for is the very next captured frame, and the
/// request is then settled.
pub proof fn asked_keyframe_comes_next(
    stream: BroadcastLoop,
    viewers: Broadcaster,
    w: u32,
    h: u32,
    after: BroadcastLoop,
    after_viewers: Broadcaster,
    step: LoopStep,
)
    requires
        stream.wf(),
        stream.phase == LoopPhase::Grabbing,
        stream.expects(LoopEvent::Grabbed(GrabOutcome::Frame(w, h))),
        viewers.needs_keyframe,
        stream.follows(
            viewers,
            LoopEvent::Grabbed(GrabOutcome::Frame(w, h)),
            after,
            after_viewers,
            step,
        ),
    ensures
        !after_viewers.needs_keyframe,
        step == (LoopStep::Encode { keyframe: true }) || after.phase == LoopPhase::Recreating(true),
{
}

/// Also without a request every captured frame at a whole interval becomes a
/// key frame.
pub proof fn keyframes_come_at_every_interval(
    stream: BroadcastLoop,
    viewers: Broadcaster,
    w: u32,
    h: u32,
    after: BroadcastLoop,
    after_viewers: Broadcaster,
    step: LoopStep,
)
    requires
        stream.wf(),
        stream.phase == LoopPhase::Grabbing,
        stream.expects(LoopEvent::Grabbed(GrabOutcome::Frame(w, h))),
        stream.follows(
            viewers,
            LoopEvent::Grabbed(GrabOutcome::Frame(w, h)),
            after,
            after_viewers,
            step,
        ),
        after.frame_count % (stream.keyframe_interval() as u64) == 0,
    ensures
        step == (LoopStep::Encode { keyframe: true }) || after.phase == LoopPhase::Recreating(true),
{
}

/// A captured frame is encoded only by an encoder made for its size.
pub proof fn encoder_fits_the_frame(
    stream: BroadcastLoop,
    viewers: Broadcaster,
    w: u32,
    h: u32,
    after: BroadcastLoop,
    after_viewers: Broadcaster,
    step: LoopStep,
)
    requires
        stream.wf(),
        stream.expects(LoopEvent::Grabbed(GrabOutcome::Frame(w, h))),
        stream.follows(
            viewers,
            LoopEvent::Grabbed(GrabOutcome::Frame(w, h)),
            after,
            after_viewers,
            step,
        ),
    ensures
        after.width == w,
        after.height == h,
        step matches LoopStep::Encode { keyframe } ==> stream.width == w && stream.height == h,
        step !is Encode ==> step == (LoopStep::CreateEncoder { width: w, height: h, fps: stream.fps }),
{
}

/// The stream never runs further behind its clock than one frame: after each
/// turn the next frame is due no earlier than one frame before now.
pub proof fn stream_keeps_up(
    stream: BroadcastLoop,
    viewers: Broadcaster,
    now: Duration,
    after: BroadcastLoop,
    after_viewers: Broadcaster,
    step: LoopStep,
)
    requires
        stream.wf(),
        stream.expects(LoopEvent::Clock(now)),
        stream.follows(viewers, LoopEvent::Clock(now), after, after_viewers, step),
    ensures
        nanos(after.next_frame_time) + nanos(stream.frame_duration) >= nanos(now),
        step matches LoopStep::Sleep(d) ==> nanos(now) + nanos(d) == nanos(after.next_frame_time),
{
}

/// The stream ends at the first turn at which nobody watches, and goes on while
/// somebody does: a turn begins only for viewers, and without an error the
/// stream ends only for want of them.
pub proof fn stream_ends_without_viewers(
    stream: BroadcastLoop,
    viewers: Broadcaster,
    event: LoopEvent,
    after: BroadcastLoop,
    after_viewers: Broadcaster,
    step: LoopStep,
)
    requires
        stream.wf(),
        stream.expects(event),
        stream.follows(viewers, event, after, after_viewers, step),
    ensures
        after.phase == LoopPhase::Grabbing ==> viewers.subscriber_count > 0,
        step == LoopStep::Stop(Ok(())) ==> viewers.subscriber_count == 0,
        event is Slept || event is AudioStarted ==> step == (if viewers.subscriber_count == 0 {
            LoopStep::Stop(Ok(()))
        } else {
            LoopStep::Grab { delay_ms: 0 }
        }),
{
}

/// One move of the stream: what it was, what happened, and what followed.
pub struct LoopMove {
    pub before: BroadcastLoop,
    pub viewers: Broadcaster,
    pub event: LoopEvent,
    pub after: BroadcastLoop,
    pub after_viewers: Broadcaster,
    pub step: LoopStep,
}

impl LoopMove {
    /// Whether the stream makes the move.
    pub open spec fn is_made(self) -> bool {
        &&& self.before.wf()
        &&& self.before.expects(self.event)
        &&& self.before.follows(
            self.viewers,
            self.event,
            self.after,
            self.after_viewers,
            self.step,
        )
    }

    /// Whether a stream past its first frame has captured another one.
    pub open spec fn captures(self) -> bool {
        &&& self.before.phase == LoopPhase::Grabbing
        &&& self.event matches LoopEvent::Grabbed(GrabOutcome::Frame(_, _))
    }
}

/// Whether the moves are made one after the other by one stream.
pub open spec fn is_run(moves: Seq<LoopMove>) -> bool {
    &&& forall|i: int| 0 <= i < moves.len() ==> (#[trigger] moves[i]).is_made()
    &&& forall|i: int, j: int|
        0 <= i && j == i + 1 && j < moves.len() ==> (#[trigger] moves[j]).before == (
        #[trigger] moves[i]).after
}

/// Every answer of a stream to an event that it expects is a move.
pub proof fn every_answer_is_a_move(stream: &&mut BroadcastLoop, viewers: &&mut Broadcaster, m: LoopMove)
    requires
        call_ensures(BroadcastLoop::on_event, (*stream, *viewers, m.event), m.step),
        m.before == **stream,
        m.viewers == **viewers,
        m.after == *final(*stream),
        m.after_viewers == *final(*viewers),
        m.before.wf(),
        m.before.expects(m.event),
    ensures
        m.is_made(),
        m.after.wf(),
{
}

/// A stream begins with a capture and without sound, at the wished rate, with
/// nothing counted and the first frame due now.
pub proof fn streams_begin_with_a_capture(fps: u32, now: Duration, r: (BroadcastLoop, LoopStep))
    requires
        call_ensures(BroadcastLoop::start, (fps, now), r),
    ensures
        r.0.wf(),
        r.0.fps == fps,
        r.0.frame_count == 0,
        r.0.next_frame_time == now,
        !r.0.audio,
        r.0.phase == LoopPhase::FirstGrab,
        r.1 == (LoopStep::Grab { delay_ms: 0 }),
{
}

/// While sound is recorded, every turn looks for a packet of sound before it
/// reads the clock, whatever came of the capture, the encoding and the sending:
/// between a capture and a reading of the clock there is always such a look.
pub proof fn sound_is_looked_for_in_every_turn(moves: Seq<LoopMove>, a: int, b: int)
    requires
        is_run(moves),
        0 <= a < b < moves.len(),
        moves[a].step is Grab,
        moves[b].step is ReadClock,
        moves[b].before.audio,
    ensures
        exists|k: int| a < k < b && (#[trigger] moves[k]).step is PollAudio,
{
    assert(moves[a].is_made() && moves[b].is_made());
    assert(moves[b - 1].is_made());
    assert(moves[b].before == moves[b - 1].after);
    if moves[b].before.phase == LoopPhase::PollingAudio {
        assert(moves[b - 1].step is PollAudio);
    } else {
        assert(moves[b].before.phase == LoopPhase::PublishingAudio);
        assert(moves[b - 1].before.phase == LoopPhase::PollingAudio);
        assert(moves[b - 2].is_made());
        assert(moves[b - 1].before == moves[b - 2].after);
        assert(moves[b - 2].step is PollAudio);
    }
}

/// Whether sound is recorded is settled when the recording starts, and nothing
/// else changes it. Only a stream with sound looks for it.
pub proof fn recording_is_settled_at_its_start(m: LoopMove)
    requires
        m.is_made(),
    ensures
        m.event matches LoopEvent::AudioStarted(ok, now) ==> m.after.audio == ok
            && m.after.next_frame_time == now && m.after.frame_count == 1,
        m.event !is AudioStarted ==> m.after.audio == m.before.audio,
        m.step is PollAudio ==> m.before.audio && m.after.phase == LoopPhase::PollingAudio,
{
}

/// Sound that was found is sent, byte for byte, as a packet of twenty
/// milliseconds; nothing else is sent as sound.
pub proof fn found_sound_is_sent(m: LoopMove)
    requires
        m.is_made(),
    ensures
        m.event matches LoopEvent::AudioPolled(Some(data)) ==> m.step matches
            LoopStep::PublishAudio(p) && p.data@ == data@ && nanos(p.duration) == 20_000_000,
        m.step is PublishAudio ==> m.event matches LoopEvent::AudioPolled(Some(_)),
{
}

/// No turn begins before the clock was read: between two captures past the
/// first frame there is always a reading of the clock.
pub proof fn the_clock_is_read_in_every_turn(moves: Seq<LoopMove>, a: int, b: int)
    requires
        is_run(moves),
        0 <= a < b < moves.len(),
        moves[a].after.phase == LoopPhase::Grabbing,
        moves[b].step is Grab,
        moves[b].event is Clock || moves[b].event is Slept,
    ensures
        exists|k: int| a < k < b && (#[trigger] moves[k]).step is ReadClock,
{
    assert(moves[a].is_made() && moves[b].is_made());
    assert(moves[b - 1].is_made());
    assert(moves[b].before == moves[b - 1].after);
    if moves[b].before.phase == LoopPhase::Pacing {
        assert(moves[b - 1].step is ReadClock);
    } else {
        assert(moves[b - 1].before.phase == LoopPhase::Pacing);
        assert(moves[b - 2].is_made());
        assert(moves[b - 1].before == moves[b - 2].after);
        assert(moves[b - 2].step is ReadClock);
    }
}

/// A captured frame becomes a key frame where one was asked for or where the
/// number of frames is a whole number of two seconds, and in no other case. It
/// is encoded at once by an encoder that fits, and otherwise, in the same way,
/// as soon as there is one.
pub proof fn frames_are_key_frames_when_due(m: LoopMove, next: LoopMove, w: u32, h: u32)
    requires
        m.is_made(),
        m.captures(),
        m.event == LoopEvent::Grabbed(GrabOutcome::Frame(w, h)),
        next.is_made(),
        next.before == m.after,
    ensures
        ({
            let n = m.before.frame_count + 1;
            let key = m.viewers.needs_keyframe || n % (m.before.fps * 2) == 0;
            &&& m.after.frame_count == n
            &&& if w == m.before.width && h == m.before.height {
                m.step == (LoopStep::Encode { keyframe: key }) && next.event is Encoded
            } else {
                &&& next.event is EncoderReady
                &&& next.event == LoopEvent::EncoderReady(Ok(())) ==> next.step
                    == (LoopStep::Encode { keyframe: key })
            }
        }),
{
}

/// The first frame is encoded as a key frame, and the stream then asks for the
/// recording of sound.
pub proof fn the_first_frame_is_a_key_frame(m: LoopMove)
    requires
        m.is_made(),
    ensures
        m.before.phase == LoopPhase::FirstEncoder && m.step is Encode ==> m.step == (
        LoopStep::Encode { keyframe: true }),
        m.before.phase == LoopPhase::FirstEncoder && m.event == LoopEvent::EncoderReady(Ok(()))
            ==> m.step is Encode && m.after.phase == LoopPhase::FirstEncode,
        m.before.phase == LoopPhase::FirstPublish ==> m.step is StartAudio && m.after.phase
            == LoopPhase::StartingAudio,
        m.step is StartAudio ==> m.before.phase == LoopPhase::FirstPublish,
{
}

/// Every encoded frame is sent with all its units in order, each behind the
/// four bytes of a start code, and lasts as long as a frame of the stream; how
/// long it took counts unless it is the first one.
pub proof fn encoded_frames_are_sent(m: LoopMove, nals: Vec<Bytes>)
    requires
        m.is_made(),
        m.event == LoopEvent::Encoded(Ok(nals)),
    ensures
        m.step matches LoopStep::Publish { frame, timed } && frame.duration
            == m.before.frame_duration && (timed <==> m.before.phase == LoopPhase::Encoding)
            && holds_units(buffer_bytes(frame.sample_data), buffer_rows(nals@)),
        m.after.phase == (if m.before.phase == LoopPhase::Encoding {
            LoopPhase::Publishing
        } else {
            LoopPhase::FirstPublish
        }),
{
    joined_units_stand_in_order(buffer_rows(nals@));
}

/// A failure to capture, to make an encoder or to encode ends the stream only
/// at the first frame, but for that of a later encoder; the complaint ends with
/// the reason. Past the first frame the stream goes on.
pub proof fn later_failures_do_not_end_the_stream(m: LoopMove)
    requires
        m.is_made(),
    ensures
        m.step is Stop <==> m.after.phase == LoopPhase::Over,
        m.step matches LoopStep::Stop(Err(_)) ==> m.before.phase == LoopPhase::FirstGrab
            || m.before.phase == LoopPhase::FirstEncoder || m.before.phase
            == LoopPhase::FirstEncode || m.before.phase is Recreating,
        m.before.phase == LoopPhase::FirstGrab ==> match m.event {
            LoopEvent::Grabbed(GrabOutcome::Failed(e)) => ends_for(m.step, e),
            LoopEvent::Grabbed(GrabOutcome::NotRun(e)) => ends_for(m.step, e),
            LoopEvent::Grabbed(GrabOutcome::Nothing) => m.step == (LoopStep::Grab { delay_ms: 10 })
                && m.after == m.before,
            _ => m.step is CreateEncoder && m.after.phase == LoopPhase::FirstEncoder,
        },
        m.event matches LoopEvent::EncoderReady(Err(e)) ==> ends_for(m.step, e),
        m.before.phase == LoopPhase::FirstEncode ==> (m.event matches LoopEvent::Encoded(Err(e))
            ==> ends_for(m.step, e)),
        m.event matches LoopEvent::Grabbed(_) && m.before.phase == LoopPhase::Grabbing
            ==> m.step !is Stop,
        m.event is Encoded && m.before.phase == LoopPhase::Encoding ==> m.step !is Stop,
        m.event is Published || m.event is AudioPolled || m.event is AudioPublished ==> m.step
            !is Stop,
{
    reveal_strlit("capture error: ");
    reveal_strlit("spawn error: ");
    reveal_strlit("NVENC reinit: ");
    reveal_strlit("NVENC init: ");
    reveal_strlit("encode keyframe: ");
    if let LoopStep::Stop(Err(text)) = m.step {
        let e = match m.event {
            LoopEvent::Grabbed(GrabOutcome::Failed(e)) => e,
            LoopEvent::Grabbed(GrabOutcome::NotRun(e)) => e,
            LoopEvent::EncoderReady(Err(e)) => e,
            LoopEvent::Encoded(Err(e)) => e,
            _ => text,
        };
        assert(text@.skip(text@.len() - e@.len()) =~= e@);
    }
}

/// Whether a step ends the stream with a complaint that ends with the reason.
pub open spec fn ends_for(step: LoopStep, why: String) -> bool {
    &&& step matches LoopStep::Stop(Err(text))
    &&& text@.len() > why@.len()
    &&& text@.skip(text@.len() - why@.len()) == why@
}

/// The stream waits a tenth of a second after a failed capture, and in no other
/// case before it goes on with the second half of a turn.
pub proof fn failed_captures_are_waited_for(m: LoopMove)
    requires
        m.is_made(),
        m.step is PollAudio || m.step is ReadClock,
    ensures
        ({
            let delay: u64 = if m.event matches LoopEvent::Grabbed(GrabOutcome::Failed(_)) {
                100
            } else {
                0
            };
            m.step == (LoopStep::PollAudio { delay_ms: delay }) || m.step == (LoopStep::ReadClock {
                delay_ms: delay,
            })
        }),
{
}

/// The stream changes nothing about its viewers but that a captured frame
/// settles the request for a key frame; a request is never lost otherwise.
pub proof fn requests_wait_for_a_frame(m: LoopMove)
    requires
        m.is_made(),
    ensures
        m.after_viewers.running == m.viewers.running,
        m.after_viewers.subscriber_count == m.viewers.subscriber_count,
        m.after_viewers.needs_keyframe <==> m.viewers.needs_keyframe && !m.captures(),
{
}

/// The rate and the length of a frame never change; the number of frames grows
/// by one with each captured frame past the first; the time at which a frame is
/// due moves only with the clock.
pub proof fn what_a_move_leaves_alone(m: LoopMove)
    requires
        m.is_made(),
    ensures
        m.after.fps == m.before.fps,
        m.after.frame_duration == m.before.frame_duration,
        m.event !is AudioStarted ==> m.after.frame_count == m.before.frame_count + (if m.captures() {
            1int
        } else {
            0int
        }),
        m.event !is AudioStarted && m.event !is Clock ==> m.after.next_frame_time
            == m.before.next_frame_time,
        !(m.event matches LoopEvent::Grabbed(GrabOutcome::Frame(_, _))) ==> m.after.width
            == m.before.width && m.after.height == m.before.height,
{
}

/// Frames keep their beat: each is due one frame after the last, the stream
/// sleeps exactly until then, and where it is late it goes on at once; only
/// where it is late by more than a frame the beat starts anew at the clock.
pub proof fn frames_keep_their_beat(m: LoopMove, now: Duration)
    requires
        m.is_made(),
        m.event == LoopEvent::Clock(now),
    ensures
        ({
            let last = nanos(m.before.next_frame_time);
            let frame = nanos(m.before.frame_duration);
            let late = nanos(now) - last;
            &&& nanos(m.after.next_frame_time) == (if late > 2 * frame {
                nanos(now)
            } else {
                last + frame
            })
            &&& m.step is Sleep <==> late < frame
            &&& m.step matches LoopStep::Sleep(d) ==> nanos(now) + nanos(d) == last + frame
            &&& late >= frame ==> m.step == (if m.viewers.subscriber_count == 0 {
                LoopStep::Stop(Ok(()))
            } else {
                LoopStep::Grab { delay_ms: 0 }
            })
        }),
{
}

/// As many frames as the rate says fill a second, up to less than a millisecond
/// for each; frames last whole milliseconds.
pub proof fn frames_fill_the_second(stream: BroadcastLoop)
    requires
        stream.wf(),
    ensures
        stream.fps * nanos(stream.frame_duration) <= 1_000_000_000,
        stream.fps * (nanos(stream.frame_duration) + 1_000_000) > 1_000_000_000,
        nanos(stream.frame_duration) % 1_000_000 == 0,
{
    let fps = stream.fps as int;
    let ms = 1000int / fps;
    assert(fps * ms <= 1000 && fps * (ms + 1) > 1000) by (nonlinear_arith)
        requires
            fps > 0,
            ms == 1000int / fps,
    ;
    assert(fps * (ms * 1_000_000) == (fps * ms) * 1_000_000) by (nonlinear_arith);
    assert(fps * (ms * 1_000_000 + 1_000_000) == (fps * (ms + 1)) * 1_000_000)
        by (nonlinear_arith);
}

/// What reaches the forwarding of video to one viewer.
pub enum VideoEvent {
    /// The viewer is gone.
    Disconnected,
    /// The next frame.
    Received(VideoFrame),
    /// Frames were missed.
    Lagged(u64),
    /// There will be no more frames.
    Closed,
    /// A frame was written, or not.
    Written(bool),
}

/// What the forwarding of video does next.
pub enum VideoStep {
    /// Wait for a frame or for the viewer to go.
    Receive,
    /// Write a frame to the viewer.
    Write(VideoFrame),
    /// End.
    Stop,
}

/// Forwards every frame it gets to a viewer, goes on after missed frames, and
/// ends with the viewer, with the stream or with a failed write.
pub fn forward_video(event: VideoEvent) -> (step: VideoStep)
    ensures
        step == (match event {
            VideoEvent::Disconnected => VideoStep::Stop,
            VideoEvent::Received(frame) => VideoStep::Write(frame),
            VideoEvent::Lagged(_) => VideoStep::Receive,
            VideoEvent::Closed => VideoStep::Stop,
            VideoEvent::Written(ok) => if ok {
                VideoStep::Receive
            } else {
                VideoStep::Stop
            },
        }),
{
    match event {
        VideoEvent::Disconnected => VideoStep::Stop,
        VideoEvent::Received(frame) => VideoStep::Write(frame),
        VideoEvent::Lagged(_) => VideoStep::Receive,
        VideoEvent::Closed => VideoStep::Stop,
        VideoEvent::Written(ok) => if ok {
            VideoStep::Receive
        } else {
            VideoStep::Stop
        },
    }
}

/// What reaches the forwarding of sound to one viewer.
pub enum SoundEvent {
    Received(AudioPacket),
    Lagged(u64),
    Closed,
    Written(bool),
}

/// What the forwarding of sound does next.
pub enum SoundStep {
    Receive,
    Write(AudioPacket),
    Stop,
}

/// Forwards every packet it gets to a viewer, goes on after missed packets, and
/// ends with the stream or with a failed write.
pub fn forward_audio(event: SoundEvent) -> (step: SoundStep)
    ensures
        step == (match event {
            SoundEvent::Received(packet) => SoundStep::Write(packet),
            SoundEvent::Lagged(_) => SoundStep::Receive,
            SoundEvent::Closed => SoundStep::Stop,
            SoundEvent::Written(ok) => if ok {
                SoundStep::Receive
            } else {
                SoundStep::Stop
            },
        }),
{
    match event {
        SoundEvent::Received(packet) => SoundStep::Write(packet),
        SoundEvent::Lagged(_) => SoundStep::Receive,
        SoundEvent::Closed => SoundStep::Stop,
        SoundEvent::Written(ok) => if ok {
            SoundStep::Receive
        } else {
            SoundStep::Stop
        },
    }
}

/// Every frame that is received is written as it is, and nothing else is
/// written; the forwarding ends exactly with the viewer, with the stream or
/// with a failed write, and never because frames were missed.
pub proof fn frames_are_forwarded(event: VideoEvent, step: VideoStep)
    requires
        call_ensures(forward_video, (event,), step),
    ensures
        event matches VideoEvent::Received(frame) ==> step == VideoStep::Write(frame),
        step matches VideoStep::Write(frame) ==> event == VideoEvent::Received(frame),
        step is Stop <==> event is Disconnected || event is Closed || event == VideoEvent::Written(
            false,
        ),
{
}

/// Every packet that is received is written as it is, and nothing else is
/// written; the forwarding ends exactly with the stream or with a failed write.
pub proof fn packets_are_forwarded(event: SoundEvent, step: SoundStep)
    requires
        call_ensures(forward_audio, (event,), step),
    ensures
        event matches SoundEvent::Received(packet) ==> step == SoundStep::Write(packet),
        step matches SoundStep::Write(packet) ==> event == SoundEvent::Received(packet),
        step is Stop <==> event is Closed || event == SoundEvent::Written(false),
{
}

/// A stream that ends with a failure tells what failed: the capture or its
/// thread, the first encoder or a later one, or the first key frame.
pub proof fn ends_tell_what_failed(m: LoopMove, text: String)
    requires
        m.is_made(),
        m.step == LoopStep::Stop(Err(text)),
    ensures
        match m.event {
            LoopEvent::Grabbed(GrabOutcome::Failed(e)) => text@ == "capture error: "@ + e@,
            LoopEvent::Grabbed(GrabOutcome::NotRun(e)) => text@ == "spawn error: "@ + e@,
            LoopEvent::EncoderReady(Err(e)) => text@ == (if m.before.phase is Recreating {
                "NVENC reinit: "@
            } else {
                "NVENC init: "@
            }) + e@,
            LoopEvent::Encoded(Err(e)) => text@ == "encode keyframe: "@ + e@,
            _ => false,
        },
{
}

} // verus!
