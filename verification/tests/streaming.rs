use std::time::Duration;

use bytes::Bytes;
use ffscreencast::audio::{
    list_audio_devices, AudioEvent, AudioLoop, AudioSettings, AudioSourceType, AudioStep,
    DeviceChoice, DeviceEntry, Direction, FRAME_BYTES,
};
use ffscreencast::broadcast::{
    forward_audio, forward_video, AudioPacket, BroadcastLoop, Broadcaster, GrabOutcome, LoopEvent,
    LoopStep, SoundEvent, SoundStep, VideoEvent, VideoFrame, VideoStep,
};
use ffscreencast::capture::Frame;
use ffscreencast::graphics::encoder_textures;
use ffscreencast::nvenc_encoder::{
    configure_config, BufferFormat, EncodeEvent, EncodeStep, NvencH264Encoder, PicStruct, PicType,
    PictureParams, Preset, Profile, RateControl, SetupOutcome, SetupStep, Tuning, VideoCodec,
};
use ffscreencast::stats::{FrameTimer, StreamStats};

fn millis(n: u64) -> Duration {
    Duration::from_millis(n)
}

fn frame_to(frame_loop: &mut BroadcastLoop, viewers: &mut Broadcaster, event: LoopEvent) -> LoopStep {
    frame_loop.on_event(viewers, event)
}

fn streaming(viewers: &mut Broadcaster) -> BroadcastLoop {
    let (mut stream, step) = BroadcastLoop::start(50, millis(0));
    assert!(matches!(step, LoopStep::Grab { delay_ms: 0 }));
    let step = frame_to(&mut stream, viewers, LoopEvent::Grabbed(GrabOutcome::Frame(640, 480)));
    assert!(matches!(step, LoopStep::CreateEncoder { width: 640, height: 480, fps: 50 }));
    let step = frame_to(&mut stream, viewers, LoopEvent::EncoderReady(Ok(())));
    assert!(matches!(step, LoopStep::Encode { keyframe: true }));
    let nals = vec![Bytes::from(vec![0x65, 1])];
    match frame_to(&mut stream, viewers, LoopEvent::Encoded(Ok(nals))) {
        LoopStep::Publish { frame, timed } => {
            assert_eq!(&frame.sample_data[..], &[0, 0, 0, 1, 0x65, 1]);
            assert_eq!(frame.duration, millis(20));
            assert!(!timed);
        }
        _ => panic!(),
    }
    let step = frame_to(&mut stream, viewers, LoopEvent::Published);
    assert!(matches!(step, LoopStep::StartAudio));
    let step = frame_to(&mut stream, viewers, LoopEvent::AudioStarted(false, millis(1000)));
    assert!(matches!(step, LoopStep::Grab { delay_ms: 0 }));
    stream
}

fn turn(stream: &mut BroadcastLoop, viewers: &mut Broadcaster) -> bool {
    let keyframe = match stream.on_event(viewers, LoopEvent::Grabbed(GrabOutcome::Frame(640, 480))) {
        LoopStep::Encode { keyframe } => keyframe,
        _ => panic!(),
    };
    stream.on_event(viewers, LoopEvent::Encoded(Ok(vec![Bytes::from(vec![1, 2])])));
    stream.on_event(viewers, LoopEvent::Published);
    let due = stream.next_frame_time + stream.frame_duration;
    assert!(matches!(stream.on_event(viewers, LoopEvent::Clock(due)), LoopStep::Grab { .. }));
    keyframe
}

#[test]
fn key_frames_come_every_two_seconds() {
    let mut viewers = Broadcaster::new();
    viewers.add_subscriber();
    let mut stream = streaming(&mut viewers);
    viewers.needs_keyframe = false;
    let mut keyframes = Vec::new();
    for n in 2..=200 {
        if turn(&mut stream, &mut viewers) {
            keyframes.push(n);
        }
    }
    assert_eq!(keyframes, vec![100, 200]);
}

#[test]
fn a_key_frame_that_is_asked_for_comes_next() {
    let mut viewers = Broadcaster::new();
    viewers.add_subscriber();
    let mut stream = streaming(&mut viewers);
    assert!(turn(&mut stream, &mut viewers));
    assert!(!turn(&mut stream, &mut viewers));
    viewers.request_keyframe();
    assert!(turn(&mut stream, &mut viewers));
    assert!(!viewers.needs_keyframe);
}

#[test]
fn another_size_makes_another_encoder() {
    let mut viewers = Broadcaster::new();
    viewers.add_subscriber();
    let mut stream = streaming(&mut viewers);
    let step = stream.on_event(&mut viewers, LoopEvent::Grabbed(GrabOutcome::Frame(800, 600)));
    assert!(matches!(step, LoopStep::CreateEncoder { width: 800, height: 600, fps: 50 }));
    let step = stream.on_event(&mut viewers, LoopEvent::EncoderReady(Ok(())));
    assert!(matches!(step, LoopStep::Encode { keyframe: true }));
    let step = stream.on_event(&mut viewers, LoopEvent::Encoded(Err("e".to_string())));
    assert!(matches!(step, LoopStep::ReadClock { delay_ms: 0 }));
    let step = stream.on_event(&mut viewers, LoopEvent::Clock(millis(1005)));
    assert!(matches!(step, LoopStep::Sleep(d) if d == millis(15)));
    let step = stream.on_event(&mut viewers, LoopEvent::Slept);
    assert!(matches!(step, LoopStep::Grab { delay_ms: 0 }));
    let step = stream.on_event(&mut viewers, LoopEvent::Grabbed(GrabOutcome::Frame(1, 1)));
    assert!(matches!(step, LoopStep::CreateEncoder { .. }));
    match stream.on_event(&mut viewers, LoopEvent::EncoderReady(Err("gone".to_string()))) {
        LoopStep::Stop(Err(e)) => assert_eq!(e, "NVENC reinit: gone"),
        _ => panic!(),
    }
}

#[test]
fn the_stream_ends_without_viewers() {
    let mut viewers = Broadcaster::new();
    viewers.add_subscriber();
    let mut stream = streaming(&mut viewers);
    viewers.remove_subscriber();
    let step = stream.on_event(&mut viewers, LoopEvent::Grabbed(GrabOutcome::Nothing));
    assert!(matches!(step, LoopStep::ReadClock { delay_ms: 0 }));
    let step = stream.on_event(&mut viewers, LoopEvent::Clock(millis(5000)));
    assert!(matches!(step, LoopStep::Stop(Ok(()))));
    assert_eq!(stream.next_frame_time, millis(5000));
}

#[test]
fn first_failures_end_the_stream() {
    let fail = |event: LoopEvent, steps: usize| {
        let mut viewers = Broadcaster::new();
        let (mut stream, _) = BroadcastLoop::start(60, millis(0));
        if steps > 0 {
            stream.on_event(&mut viewers, LoopEvent::Grabbed(GrabOutcome::Frame(2, 2)));
        }
        if steps > 1 {
            stream.on_event(&mut viewers, LoopEvent::EncoderReady(Ok(())));
        }
        match stream.on_event(&mut viewers, event) {
            LoopStep::Stop(Err(e)) => e,
            _ => panic!(),
        }
    };
    let x = || "x".to_string();
    assert_eq!(fail(LoopEvent::Grabbed(GrabOutcome::Failed(x())), 0), "capture error: x");
    assert_eq!(fail(LoopEvent::Grabbed(GrabOutcome::NotRun(x())), 0), "spawn error: x");
    assert_eq!(fail(LoopEvent::EncoderReady(Err(x())), 1), "NVENC init: x");
    assert_eq!(fail(LoopEvent::Encoded(Err(x())), 2), "encode keyframe: x");
    let mut viewers = Broadcaster::new();
    let (mut stream, _) = BroadcastLoop::start(60, millis(0));
    let step = stream.on_event(&mut viewers, LoopEvent::Grabbed(GrabOutcome::Nothing));
    assert!(matches!(step, LoopStep::Grab { delay_ms: 10 }));
}

#[test]
fn sound_goes_along_with_the_pictures() {
    let mut viewers = Broadcaster::new();
    viewers.add_subscriber();
    let mut stream = streaming(&mut viewers);
    stream.audio = true;
    let failed = GrabOutcome::Failed("x".to_string());
    let step = stream.on_event(&mut viewers, LoopEvent::Grabbed(failed));
    assert!(matches!(step, LoopStep::PollAudio { delay_ms: 100 }));
    match stream.on_event(&mut viewers, LoopEvent::AudioPolled(Some(vec![7]))) {
        LoopStep::PublishAudio(p) => assert_eq!((p.data, p.duration), (vec![7], millis(20))),
        _ => panic!(),
    }
    let step = stream.on_event(&mut viewers, LoopEvent::AudioPublished);
    assert!(matches!(step, LoopStep::ReadClock { delay_ms: 0 }));
}

#[test]
fn viewers_are_counted() {
    let mut b = Broadcaster::new();
    assert!(b.ensure_running());
    assert!(!b.ensure_running());
    b.stopped();
    assert!(b.ensure_running());
    b.add_subscriber();
    b.add_subscriber();
    b.remove_subscriber();
    assert_eq!(b.subscriber_count, 1);
    assert!(b.take_keyframe_request());
    assert!(!b.take_keyframe_request());
}

#[test]
fn tracks_are_fed_until_they_end() {
    let video = || VideoFrame { sample_data: Bytes::from(vec![1]), duration: millis(16) };
    match forward_video(VideoEvent::Received(video())) {
        VideoStep::Write(f) => assert_eq!((&f.sample_data[..], f.duration), (&[1u8][..], millis(16))),
        _ => panic!(),
    }
    assert!(matches!(forward_video(VideoEvent::Lagged(3)), VideoStep::Receive));
    assert!(matches!(forward_video(VideoEvent::Written(true)), VideoStep::Receive));
    assert!(matches!(forward_video(VideoEvent::Written(false)), VideoStep::Stop));
    assert!(matches!(forward_video(VideoEvent::Disconnected), VideoStep::Stop));
    assert!(matches!(forward_video(VideoEvent::Closed), VideoStep::Stop));
    let sound = AudioPacket { data: vec![2], duration: millis(20) };
    assert!(matches!(forward_audio(SoundEvent::Received(sound)), SoundStep::Write(p) if p.data == vec![2]));
    assert!(matches!(forward_audio(SoundEvent::Lagged(1)), SoundStep::Receive));
    assert!(matches!(forward_audio(SoundEvent::Written(false)), SoundStep::Stop));
    assert!(matches!(forward_audio(SoundEvent::Closed), SoundStep::Stop));
}

#[test]
fn the_encoder_is_set_up_step_by_step() {
    let mut setup = NvencH264Encoder::new(640, 480, 30);
    assert_eq!(setup.params.config, configure_config(30));
    assert_eq!((setup.params.config.gop_len, setup.params.config.average_bit_rate), (60, 8_000_000));
    let p = setup.params;
    assert_eq!((p.codec, p.preset, p.tuning), (VideoCodec::H264, Preset::P4, Tuning::UltraLowLatency));
    assert_eq!((p.config.profile, p.config.rate_control), (Profile::High, RateControl::Constant));
    assert_eq!((p.aspect_ratio, p.largest_size), ((640, 480), (640, 480)));
    assert_eq!((p.frame_rate, p.frame_rate_den, p.buffer_format), (30, 1, BufferFormat::Abgr));
    assert_eq!((setup.staging, setup.source), encoder_textures(640, 480));
    let mut steps = vec![setup.step];
    let encoder = loop {
        match setup.on_result(Ok(())) {
            SetupOutcome::Next(step) => steps.push(step),
            SetupOutcome::Ready(e) => break e,
            SetupOutcome::Failed(_) => panic!(),
        }
    };
    assert_eq!(
        steps,
        vec![
            SetupStep::CreateDevice,
            SetupStep::OpenSession,
            SetupStep::GetPreset,
            SetupStep::InitEncoder,
            SetupStep::StagingTexture,
            SetupStep::DefaultTexture,
            SetupStep::RegisterTexture,
            SetupStep::CreateBitstream,
        ]
    );
    assert_eq!((encoder.width(), encoder.height()), (640, 480));
}

#[test]
fn a_failed_setup_says_why() {
    let mut setup = NvencH264Encoder::new(2, 2, 30);
    setup.on_result(Ok(()));
    match setup.on_result(Err("no card".to_string())) {
        SetupOutcome::Failed(e) => assert_eq!(e, "NVENC open_dx failed: no card"),
        _ => panic!(),
    }
}

fn encoder(width: u32, height: u32) -> NvencH264Encoder {
    let mut setup = NvencH264Encoder::new(width, height, 30);
    loop {
        if let SetupOutcome::Ready(e) = setup.on_result(Ok(())) {
            return e;
        }
    }
}

#[test]
fn frames_go_through_the_encoder() {
    let e = encoder(1, 1);
    let frame = Frame { width: 1, height: 1, data: vec![1, 2, 3, 4] };
    assert!(matches!(e.encode(&frame, None), EncodeStep::CopyFrame));
    let step = e.encode(&frame, Some(EncodeEvent::Copied(Ok(()))));
    let plain = PictureParams {
        frame_count: 0,
        timestamp: 0,
        format: BufferFormat::Abgr,
        pic_struct: PicStruct::Frame,
        kind: PicType::P,
    };
    assert!(matches!(step, EncodeStep::EncodePicture(p) if p == plain));
    let step = e.encode_keyframe(&frame, Some(EncodeEvent::Copied(Ok(()))));
    let key = PictureParams { kind: PicType::Idr, ..plain };
    assert!(matches!(step, EncodeStep::EncodePicture(p) if p == key));
    let step = e.encode(&frame, Some(EncodeEvent::Encoded(Ok(()))));
    assert!(matches!(step, EncodeStep::LockBitstream));
    match e.encode(&frame, Some(EncodeEvent::Locked(Ok(vec![0, 0, 1, 5, 6])))) {
        EncodeStep::Finish(Ok(nals)) => assert_eq!(nals, vec![Bytes::from(vec![5, 6])]),
        _ => panic!(),
    }
    let large = Frame { width: 2, height: 1, data: vec![0; 8] };
    match e.encode(&large, None) {
        EncodeStep::Finish(Err(m)) => {
            assert_eq!(m, "resolution mismatch: expected 1x1, got 2x1")
        }
        _ => panic!(),
    }
    match e.encode_keyframe(&frame, Some(EncodeEvent::Encoded(Err("x".to_string())))) {
        EncodeStep::Finish(Err(m)) => assert_eq!(m, "encode IDR failed: x"),
        _ => panic!(),
    }
}

#[test]
fn frames_are_copied_row_by_row() {
    let e = encoder(1, 2);
    let frame = Frame { width: 1, height: 2, data: vec![1, 2, 3, 4, 5, 6, 7, 8] };
    let mut dst = [0u8; 12];
    e.copy_frame_to_texture(&frame, &mut dst, 6);
    assert_eq!(dst, [1, 2, 3, 4, 0, 0, 5, 6, 7, 8, 0, 0]);
}

#[test]
fn another_size_sets_the_encoder_up_again() {
    let mut e = encoder(1, 2);
    let mut setup = e.reconfigure(3, 4, 60);
    assert!(setup.again);
    assert_eq!((setup.params.width, setup.params.height, setup.params.frame_rate), (3, 4, 60));
    assert_eq!((setup.params.aspect_ratio, setup.source.width), ((3, 4), 3));
    for _ in 0..4 {
        setup.on_result(Ok(()));
    }
    match setup.on_result(Err("x".to_string())) {
        SetupOutcome::Failed(m) => assert_eq!(m, "create staging texture failed: x"),
        _ => panic!(),
    }
}

#[test]
fn devices_are_listed_with_what_is_known() {
    let entry = |name: Option<&str>, id: Option<&str>| {
        Some(DeviceEntry { name: name.map(|s| s.to_string()), id: id.map(|s| s.to_string()) })
    };
    let devices = list_audio_devices(Some(vec![
        entry(Some("Speakers"), Some("1")),
        None,
        entry(Some("Headset"), Some("2")),
    ]));
    let names: Vec<&str> = devices.iter().map(|d| d.name.as_str()).collect();
    assert_eq!(names, vec!["Speakers", "Headset"]);
    assert!(list_audio_devices(None).is_empty());
}

#[test]
fn sound_is_cut_into_frames() {
    let settings = AudioSettings::default();
    let (mut record, step) = AudioLoop::start(&settings);
    assert!(matches!(step, AudioStep::Open(DeviceChoice::Standard(Direction::Render))));
    assert!(matches!(record.on_event(AudioEvent::Opened(Ok(()))), AudioStep::PollStop));
    assert!(matches!(record.on_event(AudioEvent::StopPolled(false)), AudioStep::Read));
    let samples: Vec<u8> = (0..FRAME_BYTES + 8).map(|i| (i % 251) as u8).collect();
    match record.on_event(AudioEvent::ReadDone(Ok(samples.clone()))) {
        AudioStep::Encode(frame) => assert_eq!(frame, samples[..FRAME_BYTES].to_vec()),
        _ => panic!(),
    }
    match record.on_event(AudioEvent::Encoded(Ok(vec![9]))) {
        AudioStep::Send(packet) => assert_eq!(packet, vec![9]),
        _ => panic!(),
    }
    assert!(matches!(record.on_event(AudioEvent::Sent(false)), AudioStep::Wait));
    assert!(matches!(record.on_event(AudioEvent::Waited(true)), AudioStep::PollStop));
    assert!(matches!(record.on_event(AudioEvent::StopPolled(true)), AudioStep::Stop));
    assert!(matches!(record.on_event(AudioEvent::Stopped(Ok(()))), AudioStep::Exit(Ok(()))));
}

#[test]
fn sound_that_is_off_is_not_recorded() {
    let settings = AudioSettings {
        enabled: false,
        source_type: AudioSourceType::Microphone,
        device_id: None,
    };
    let (_, step) = AudioLoop::start(&settings);
    assert!(matches!(step, AudioStep::Exit(Ok(()))));
    let given = AudioSettings {
        enabled: true,
        source_type: AudioSourceType::Microphone,
        device_id: Some("m".to_string()),
    };
    let (mut record, step) = AudioLoop::start(&given);
    assert!(matches!(step, AudioStep::Open(DeviceChoice::Given(id)) if id == "m"));
    match record.on_event(AudioEvent::Opened(Err("busy".to_string()))) {
        AudioStep::Exit(Err(e)) => assert_eq!(e, "busy"),
        _ => panic!(),
    }
    assert_eq!(AudioSourceType::Microphone.label(), "Microphone");
    assert_eq!(AudioSourceType::Microphone.direction(), Direction::Capture);
    assert_eq!(AudioSourceType::default().label(), "System audio (loopback)");
}

#[test]
fn totals_grow_with_every_frame() {
    let mut stats = StreamStats::new();
    stats.total_frames = u64::MAX;
    let mut timer = FrameTimer::new(millis(0));
    for i in 1..4 {
        timer.record_frame(&mut stats, millis(i), millis(2 * i), millis(3 * i), i as usize, millis(1));
        stats.take_dirty();
    }
    let s = stats.snapshot();
    assert_eq!((s.total_frames, s.capture_us, s.encode_us), (2, 3000, 6000));
    assert_eq!((s.write_us, s.frame_bytes, s.fps), (9000, 3, 0));
    assert_eq!(stats.snapshot().total_frames, 2);
}

#[test]
fn frames_are_timed() {
    let mut stats = StreamStats::new();
    let mut timer = FrameTimer::new(millis(500));
    let long = Duration::from_micros((1u64 << 32) + 5);
    let r = timer.record_frame(
        &mut stats,
        Duration::from_nanos(2_999),
        millis(3),
        long,
        1024,
        millis(1499),
    );
    assert_eq!(r, None);
    let s = stats.snapshot();
    assert_eq!((s.capture_us, s.encode_us, s.write_us), (2, 3000, 5));
    assert_eq!((s.frame_bytes, s.total_frames, s.fps), (1024, 1, 0));
    let z = Duration::ZERO;
    assert_eq!(timer.record_frame(&mut stats, z, z, z, 1, millis(1500)), Some(2));
    assert!(!stats.take_dirty());
    timer.finish_window(&mut stats, 2, millis(1500));
    assert_eq!(timer.window_start(), millis(1500));
    assert_eq!(stats.snapshot().fps, 2);
    assert!(stats.take_dirty());
    assert!(!stats.take_dirty());
}
