//! Numbers about the running stream.

use std::time::Duration;

use vstd::prelude::*;

use crate::trusted::nanos;

verus! {

/// The latest numbers of the stream.
pub struct StreamStats {
    pub fps: u32,
    pub capture_us: u32,
    pub encode_us: u32,
    pub write_us: u32,
    pub frame_bytes: u32,
    pub total_frames: u64,
    /// Whether a new frame rate waits to be shown.
    pub dirty: bool,
}

/// The numbers at one moment.
#[derive(Clone, Copy)]
pub struct StatsSnapshot {
    pub fps: u32,
    pub capture_us: u32,
    pub encode_us: u32,
    pub write_us: u32,
    pub frame_bytes: u32,
    pub total_frames: u64,
}

/// What a frame took: the time to capture, to encode and to send it, and its
/// bytes.
pub struct FrameCost {
    pub capture_dur: Duration,
    pub encode_dur: Duration,
    pub write_dur: Duration,
    pub frame_bytes: usize,
}

impl StreamStats {
    /// All numbers at zero, nothing to show.
    pub fn new() -> (r: Self)
        ensures
            r == (StreamStats {
                fps: 0,
                capture_us: 0,
                encode_us: 0,
                write_us: 0,
                frame_bytes: 0,
                total_frames: 0,
                dirty: false,
            }),
    {
        StreamStats {
            fps: 0,
            capture_us: 0,
            encode_us: 0,
            write_us: 0,
            frame_bytes: 0,
            total_frames: 0,
            dirty: false,
        }
    }

    /// The numbers as they are now.
    pub open spec fn shot(self) -> StatsSnapshot {
        StatsSnapshot {
            fps: self.fps,
            capture_us: self.capture_us,
            encode_us: self.encode_us,
            write_us: self.write_us,
            frame_bytes: self.frame_bytes,
            total_frames: self.total_frames,
        }
    }

    /// The numbers after a frame was recorded.
    pub open spec fn with_frame(self, frame: FrameCost) -> StreamStats {
        StreamStats {
            capture_us: micros32(frame.capture_dur),
            encode_us: micros32(frame.encode_dur),
            write_us: micros32(frame.write_dur),
            frame_bytes: low_bits(frame.frame_bytes as int),
            total_frames: self.total_frames.wrapping_add(1),
            ..self
        }
    }

    /// The numbers with a new frame rate, which waits to be shown.
    pub open spec fn with_rate(self, fps: u32) -> StreamStats {
        StreamStats { fps, dirty: true, ..self }
    }

    /// The numbers as they are now.
    pub fn snapshot(&self) -> (r: StatsSnapshot)
        ensures
            r == self.shot(),
    {
        StatsSnapshot {
            fps: self.fps,
            capture_us: self.capture_us,
            encode_us: self.encode_us,
            write_us: self.write_us,
            frame_bytes: self.frame_bytes,
            total_frames: self.total_frames,
        }
    }

    /// Tells whether a new frame rate waits to be shown, and counts it as shown.
    pub fn take_dirty(&mut self) -> (r: bool)
        ensures
            r == old(self).dirty,
            *final(self) == (StreamStats { dirty: false, ..*old(self) }),
    {
        let was: bool = self.dirty;
        self.dirty = false;
        was
    }
}

/// A number cut to its lowest thirty-two bits.
pub open spec fn low_bits(n: int) -> u32 {
    (n % 0x1_0000_0000) as u32
}

/// The microseconds of a stretch of time, cut to thirty-two bits.
pub open spec fn micros32(d: Duration) -> u32 {
    low_bits((nanos(d) / 1000) as int)
}

fn micros_of(d: Duration) -> (r: u32)
    ensures
        r == micros32(d),
{
    let whole: u128 = d.as_micros();
    let cut: u32 = #[verifier::truncate] (whole as u32);
    assert(cut == whole % 0x1_0000_0000) by (bit_vector)
        requires
            cut == whole as u32,
    ;
    cut
}

/// Counts frames over windows of at least one second.
pub struct FrameTimer {
    frame_count: u64,
    window_start: Duration,
}

impl FrameTimer {
    /// Frames recorded in the open window.
    pub closed spec fn frames(&self) -> u64 {
        self.frame_count
    }

    /// The clock reading at which the open window began.
    pub closed spec fn started(&self) -> Duration {
        self.window_start
    }

    /// Opens a window at a clock reading.
    pub fn new(now: Duration) -> (r: Self)
        ensures
            r.frames() == 0,
            r.started() == now,
    {
        FrameTimer { frame_count: 0, window_start: now }
    }

    /// Records one frame. Once the window has lasted a second, gives the number
    /// of its frames, for which `finish_window` then wants the rate.
    pub fn record_frame(
        &mut self,
        stats: &mut StreamStats,
        capture_dur: Duration,
        encode_dur: Duration,
        write_dur: Duration,
        frame_bytes: usize,
        now: Duration,
    ) -> (r: Option<u64>)
        requires
            old(self).frames() < u64::MAX,
        ensures
            final(self).frames() == old(self).frames() + 1,
            final(self).started() == old(self).started(),
            *final(stats) == old(stats).with_frame(
                (FrameCost { capture_dur, encode_dur, write_dur, frame_bytes }),
            ),
            r == (if nanos(now) >= nanos(old(self).started()) + 1_000_000_000 {
                Some((old(self).frames() + 1) as u64)
            } else {
                None
            }),
    {
        self.frame_count = self.frame_count + 1;
        stats.capture_us = micros_of(capture_dur);
        stats.encode_us = micros_of(encode_dur);
        stats.write_us = micros_of(write_dur);
        let wide: u64 = frame_bytes as u64;
        let cut: u32 = #[verifier::truncate] (wide as u32);
        assert(cut == wide % 0x1_0000_0000) by (bit_vector)
            requires
                cut == wide as u32,
        ;
        stats.frame_bytes = cut;
        stats.total_frames = stats.total_frames.wrapping_add(1);
        let elapsed: Duration = now.saturating_sub(self.window_start);
        if elapsed.as_secs() >= 1 {
            Some(self.frame_count)
        } else {
            None
        }
    }

    /// Notes the rate of the window that is over and opens the next one.
    pub fn finish_window(&mut self, stats: &mut StreamStats, fps: u32, now: Duration)
        ensures
            final(self).frames() == 0,
            final(self).started() == now,
            *final(stats) == old(stats).with_rate(fps),
    {
        stats.fps = fps;
        self.frame_count = 0;
        self.window_start = now;
        stats.dirty = true;
    }

    /// The clock reading at which the open window began.
    pub fn window_start(&self) -> (r: Duration)
        ensures
            r == self.started(),
    {
        self.window_start
    }
}

/// A call that has to do with the numbers.
pub enum StatsCall {
    /// A frame was recorded.
    Record(FrameCost),
    /// A window was finished with this rate.
    Finish(u32),
    /// The numbers were taken like this.
    Snapshot(StatsSnapshot),
    /// Whether a new rate waited was asked for, and answered like this.
    TakeDirty(bool),
}

/// What a call does to the numbers, and what it answers.
pub open spec fn called(before: StreamStats, call: StatsCall, after: StreamStats) -> bool {
    match call {
        StatsCall::Record(frame) => after == before.with_frame(frame),
        StatsCall::Finish(fps) => after == before.with_rate(fps),
        StatsCall::Snapshot(s) => s == before.shot() && after == before,
        StatsCall::TakeDirty(r) => r == before.dirty && after == (StreamStats {
            dirty: false,
            ..before
        }),
    }
}

/// Whether calls lead from each of the numbers to the next.
pub open spec fn all_called(states: Seq<StreamStats>, calls: Seq<StatsCall>) -> bool {
    &&& states.len() == calls.len() + 1
    &&& forall|i: int|
        0 <= i < calls.len() ==> called(states[i], #[trigger] calls[i], states[i + 1])
}

/// The frames that calls recorded.
pub open spec fn recorded(calls: Seq<StatsCall>) -> Seq<FrameCost>
    decreases calls.len(),
{
    if calls.len() == 0 {
        Seq::empty()
    } else {
        match calls.last() {
            StatsCall::Record(frame) => recorded(calls.drop_last()).push(frame),
            _ => recorded(calls.drop_last()),
        }
    }
}

/// Whatever else is called between, the total grows by one with each recorded
/// frame, starting anew behind the largest number, and the other numbers are
/// those of the last one. Without a recorded frame they stay.
pub proof fn numbers_follow_the_frames(states: Seq<StreamStats>, calls: Seq<StatsCall>)
    requires
        all_called(states, calls),
    ensures
        ({
            let first = states[0].shot();
            let last = states.last().shot();
            let frames = recorded(calls);
            &&& last.total_frames == (first.total_frames + frames.len()) % 0x1_0000_0000_0000_0000
            &&& if frames.len() > 0 {
                &&& last.capture_us == micros32(frames.last().capture_dur)
                &&& last.encode_us == micros32(frames.last().encode_dur)
                &&& last.write_us == micros32(frames.last().write_dur)
                &&& last.frame_bytes == low_bits(frames.last().frame_bytes as int)
            } else {
                &&& last.capture_us == first.capture_us
                &&& last.encode_us == first.encode_us
                &&& last.write_us == first.write_us
                &&& last.frame_bytes == first.frame_bytes
            }
        }),
    decreases calls.len(),
{
    if calls.len() > 0 {
        let n = calls.len() - 1;
        let fewer = calls.drop_last();
        let earlier = states.drop_last();
        assert forall|i: int| 0 <= i < fewer.len() implies called(
            earlier[i],
            #[trigger] fewer[i],
            earlier[i + 1],
        ) by {
            assert(called(states[i], calls[i], states[i + 1]));
        }
        numbers_follow_the_frames(earlier, fewer);
        assert(called(states[n], calls[n], states[n + 1]));
        assert(earlier.last() == states[n]);
    }
}

/// Taking the numbers changes nothing: taken twice in a row they are the same,
/// and so is what comes after.
pub proof fn snapshots_change_nothing(
    first: StreamStats,
    second: StreamStats,
    third: StreamStats,
    a: StatsSnapshot,
    b: StatsSnapshot,
)
    requires
        called(first, StatsCall::Snapshot(a), second),
        called(second, StatsCall::Snapshot(b), third),
    ensures
        a == b,
        third == first,
{
}

/// Every recorded frame shows at once: the microseconds that it took and its
/// bytes, each up to thirty-two bits, and one more in the total; the rate stays.
/// The frames of a window are counted, and told once it has lasted a second.
pub proof fn recorded_frames_show_at_once(
    timer: &&mut FrameTimer,
    stats: &&mut StreamStats,
    before: StreamStats,
    after: StreamStats,
    frame: FrameCost,
    now: Duration,
    r: Option<u64>,
)
    requires
        call_ensures(
            FrameTimer::record_frame,
            (
                *timer,
                *stats,
                frame.capture_dur,
                frame.encode_dur,
                frame.write_dur,
                frame.frame_bytes,
                now,
            ),
            r,
        ),
        before == **stats,
        after == *final(*stats),
        (**timer).frames() < u64::MAX,
    ensures
        nanos(frame.capture_dur) < 4_294_967_296_000 ==> after.capture_us as int == nanos(
            frame.capture_dur,
        ) / 1000,
        nanos(frame.encode_dur) < 4_294_967_296_000 ==> after.encode_us as int == nanos(
            frame.encode_dur,
        ) / 1000,
        nanos(frame.write_dur) < 4_294_967_296_000 ==> after.write_us as int == nanos(
            frame.write_dur,
        ) / 1000,
        frame.frame_bytes < 4_294_967_296 ==> after.frame_bytes == frame.frame_bytes,
        before.total_frames < u64::MAX ==> after.total_frames == before.total_frames + 1,
        after.fps == before.fps,
        after.dirty == before.dirty,
        final(*timer).frames() == old(*timer).frames() + 1,
        final(*timer).started() == old(*timer).started(),
        r is Some <==> nanos(now) - nanos(old(*timer).started()) >= 1_000_000_000,
        r matches Some(n) ==> n == old(*timer).frames() + 1,
{
}

/// The end of a window shows its rate, which then waits to be shown once, and
/// begins the next window now without frames; nothing else changes.
pub proof fn rates_are_shown_once(
    timer: &&mut FrameTimer,
    stats: &&mut StreamStats,
    shown: &&mut StreamStats,
    again: &&mut StreamStats,
    fps: u32,
    now: Duration,
    a: bool,
    b: bool,
)
    requires
        call_ensures(FrameTimer::finish_window, (*timer, *stats, fps, now), ()),
        call_ensures(StreamStats::take_dirty, (*shown,), a),
        call_ensures(StreamStats::take_dirty, (*again,), b),
        **shown == *final(*stats),
        **again == *final(*shown),
    ensures
        final(*stats).fps == fps,
        final(*timer).frames() == 0,
        final(*timer).started() == now,
        a,
        !b,
        final(*again).fps == fps,
        final(*again).total_frames == old(*stats).total_frames,
        final(*again).capture_us == old(*stats).capture_us,
        final(*again).encode_us == old(*stats).encode_us,
        final(*again).write_us == old(*stats).write_us,
        final(*again).frame_bytes == old(*stats).frame_bytes,
{
}

/// A snapshot holds the numbers as they are.
pub proof fn snapshots_hold_the_numbers(stats: StreamStats, r: StatsSnapshot)
    requires
        call_ensures(StreamStats::snapshot, (&stats,), r),
    ensures
        r.fps == stats.fps,
        r.capture_us == stats.capture_us,
        r.encode_us == stats.encode_us,
        r.write_us == stats.write_us,
        r.frame_bytes == stats.frame_bytes,
        r.total_frames == stats.total_frames,
{
}

/// A window begins when its timer is made, without frames.
pub proof fn windows_begin_without_frames(now: Duration, r: FrameTimer, start: Duration)
    requires
        call_ensures(FrameTimer::new, (now,), r),
        call_ensures(FrameTimer::window_start, (&r,), start),
    ensures
        start == now,
        r.frames() == 0,
{
}

} // verus!
