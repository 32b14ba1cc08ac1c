use ffscreencast::capture::{
    bitmap_bytes, capture_monitor_gdi, screen_at, span_of, Capture, CaptureCall, CaptureError,
    Frame, GrabExchange, GrabRequest, MissingObject, RawMonitor, RawWindow, Rect, Target,
};
use ffscreencast::dxgi::{
    create_capturer, enumerate_outputs, find_output_for_hmonitor, find_output_for_monitor_index,
    find_window, CaptureWorker, CapturerAnswer, CapturerOutcome, CapturerPlan, CapturerStep,
    DxgiCapturer, GrabEvent, GrabStep, OutputDesc, WorkerEvent, WorkerStep, ACCESS_LOST,
    WAIT_TIMEOUT,
};
use ffscreencast::graphics::{
    create_d3d11_device, create_d3d11_device_and_context, encoder_textures, texture_made,
    DeviceAnswer, PixelFormat, TextureAnswer, TextureUsage, CPU_ACCESS_READ, CPU_ACCESS_WRITE,
};
use ffscreencast::joined::{cut_to_even, join_frames, JoinedCapture};
use ffscreencast::wide::to_wide;

fn rect(left: i32, top: i32, right: i32, bottom: i32) -> Rect {
    Rect { left, top, right, bottom }
}

fn raw_window(title: &str, visible: bool) -> RawWindow {
    let text = to_wide(title);
    RawWindow {
        visible,
        text_length: text.len() as i32 - 1,
        text,
        rect: rect(10, 20, 110, 70),
        minimized: false,
    }
}

fn output(attached: bool, monitor: u64, r: Rect) -> Option<OutputDesc> {
    Some(OutputDesc { attached, monitor, rect: r })
}

#[test]
fn monitors_are_listed_from_left_to_right() {
    let raws = vec![
        Some(RawMonitor { rect: rect(1920, 0, 3840, 1080), device: to_wide("D2") }),
        None,
        Some(RawMonitor { rect: rect(0, 0, 1920, 1080), device: to_wide("D1") }),
        Some(RawMonitor { rect: rect(0, -720, 1280, 0), device: to_wide("D0") }),
    ];
    let list = Capture::list_monitors(raws).unwrap();
    let names: Vec<&str> = list.iter().map(|m| m.name.as_str()).collect();
    assert_eq!(names, vec!["D0", "D1", "D2"]);
    let indices: Vec<usize> = list.iter().map(|m| m.index).collect();
    assert_eq!(indices, vec![0, 1, 2]);
    assert_eq!((list[0].width, list[0].height, list[0].x, list[0].y), (1280, 720, 0, -720));
    assert!(!list[0].is_primary);
    assert!(list[1].is_primary);
}

#[test]
fn windows_are_listed_by_title() {
    let raws = vec![
        raw_window("b", true),
        raw_window("hidden", false),
        raw_window("", true),
        raw_window("a", true),
    ];
    let list = Capture::list_windows(&raws).unwrap();
    let titles: Vec<&str> = list.iter().map(|w| w.title.as_str()).collect();
    assert_eq!(titles, vec!["a", "b"]);
    assert_eq!((list[0].width, list[0].height, list[0].minimized), (100, 50, false));
}

#[test]
fn targets_are_set_and_read() {
    let mut capture = Capture::new(Target::Combined);
    assert!(matches!(capture.target(), Target::Combined));
    match capture.set_target(Target::Monitor(3)) {
        GrabRequest::SetTarget(Target::Monitor(i)) => assert_eq!(i, 3),
        _ => panic!(),
    }
    assert!(matches!(capture.target(), Target::Monitor(3)));
    assert!(capture.grab(GrabExchange::NotAnswered).is_err());
    capture.set_target(Target::Window("w".to_string()));
    assert!(capture.grab(GrabExchange::Answered(Ok(None))).is_ok());
    assert!(matches!(capture.target(), Target::Window(t) if t == "w"));
}

#[test]
fn a_lost_capture_thread_is_an_error() {
    let capture = Capture::new(Target::Combined);
    for exchange in [GrabExchange::NotSent, GrabExchange::NotAnswered] {
        assert_eq!(capture.grab(exchange).err().unwrap().message(), "capture thread dropped");
    }
    let frame = Frame { width: 1, height: 1, data: vec![1, 2, 3, 4] };
    let got = capture.grab(GrabExchange::Answered(Ok(Some(frame)))).unwrap().unwrap();
    assert_eq!(got.data, vec![1, 2, 3, 4]);
}

#[test]
fn errors_are_told() {
    let call = |c: CaptureCall| CaptureError::CallFailed(c, "x".to_string()).message();
    assert_eq!(CaptureError::MonitorNotFound(4).message(), "monitor index 4 not found");
    assert_eq!(CaptureError::OutputNotFound.message(), "output for monitor not found");
    assert_eq!(
        CaptureError::WindowNotFound("Editor".to_string()).message(),
        "window not found: Editor"
    );
    assert_eq!(CaptureError::ZeroCrop.message(), "window crop has zero size");
    assert_eq!(
        CaptureError::AccessLost.message(),
        "AcquireNextFrame: access lost, capturer must be recreated"
    );
    assert_eq!(CaptureError::Unavailable.message(), "DXGI capturer unavailable");
    assert_eq!(call(CaptureCall::CreateDevice), "D3D11CreateDevice failed: x");
    assert_eq!(call(CaptureCall::CastDevice), "cast to IDXGIDevice failed: x");
    assert_eq!(call(CaptureCall::GetParent), "GetParent(IDXGIAdapter) failed: x");
    assert_eq!(call(CaptureCall::CastOutput), "cast to IDXGIOutput1 failed: x");
    assert_eq!(call(CaptureCall::DuplicateOutput), "DuplicateOutput failed: x");
    assert_eq!(call(CaptureCall::CreateTexture), "CreateTexture2D (staging) failed: x");
    assert_eq!(call(CaptureCall::AcquireFrame), "AcquireNextFrame failed: x");
    assert_eq!(call(CaptureCall::CastTexture), "cast to ID3D11Texture2D failed: x");
    assert_eq!(call(CaptureCall::MapTexture), "Map staging texture failed: x");
    assert_eq!(
        CaptureError::Missing(MissingObject::Texture).message(),
        "CreateTexture2D returned null"
    );
}

#[test]
fn screens_are_found_in_order() {
    let rects = vec![rect(1920, 0, 3840, 1080), rect(0, 0, 1920, 1080)];
    assert_eq!(screen_at(&rects, 0), Some(rect(0, 0, 1920, 1080)));
    assert_eq!(screen_at(&rects, 2), None);
    assert_eq!(screen_at(&vec![rect(0, 0, 0, 5)], 0), None);
    assert_eq!(span_of(-5, 7), 12);
}

#[test]
fn screens_are_read_with_red_first() {
    let screen = rect(0, 0, 2, 1);
    assert_eq!(bitmap_bytes(screen), 8);
    let got = capture_monitor_gdi(screen, Some(vec![1, 2, 3, 4, 5, 6, 7, 8])).unwrap();
    assert_eq!(got, (vec![3, 2, 1, 4, 7, 6, 5, 8], 2, 1));
    assert_eq!(capture_monitor_gdi(screen, None), None);
    let rects = vec![rect(0, 0, 1, 1)];
    assert_eq!(Capture::capture_monitor_screen(1, &rects, None), None);
    assert_eq!(
        Capture::capture_monitor_screen(0, &rects, Some(vec![1, 2, 3, 4])),
        Some((vec![3, 2, 1, 4], 1, 1))
    );
}

#[test]
fn outputs_are_found() {
    let descs = vec![
        output(false, 7, rect(0, 0, 1, 1)),
        None,
        output(true, 8, rect(0, 0, 1920, 1080)),
        output(true, 9, rect(1920, 0, 3200, 720)),
    ];
    let outputs = enumerate_outputs(&descs);
    assert_eq!(outputs.len(), 2);
    assert_eq!(find_output_for_monitor_index(&outputs, 1).unwrap(), (3, 1280, 720));
    assert_eq!(
        find_output_for_monitor_index(&outputs, 2).err().unwrap().message(),
        "monitor index 2 not found"
    );
    assert_eq!(find_output_for_hmonitor(&outputs, 8).unwrap(), (2, 1920, 1080));
    assert_eq!(
        find_output_for_hmonitor(&outputs, 7).err().unwrap().message(),
        "output for monitor not found"
    );
    let setups = DxgiCapturer::new_combined(&outputs).ok().unwrap();
    let sizes: Vec<(usize, u32, u32)> =
        setups.iter().map(|s| (s.output, s.capturer.width, s.capturer.height)).collect();
    assert_eq!(sizes, vec![(2, 1920, 1080), (3, 1280, 720)]);
    assert_eq!(
        DxgiCapturer::new_combined(&vec![]).err().unwrap().message(),
        "monitor index 0 not found"
    );
    let window = rect(5, 6, 7, 8);
    let setup = DxgiCapturer::new_window(&outputs, 9, window).ok().unwrap();
    assert_eq!((setup.output, setup.capturer.crop), (3, Some(window)));
}

#[test]
fn windows_are_found_by_their_title() {
    let windows = vec![raw_window("a", false), raw_window("b", true), raw_window("a", true)];
    assert_eq!(find_window(&windows, "a").unwrap(), 2);
    assert_eq!(
        find_window(&windows, "c").err().unwrap().message(),
        "window not found: c"
    );
}

#[test]
fn capturers_are_planned() {
    assert!(matches!(create_capturer(&Target::Monitor(2)), CapturerPlan::Output(2)));
    assert!(matches!(create_capturer(&Target::Combined), CapturerPlan::AllOutputs));
    assert!(matches!(
        create_capturer(&Target::Window("w".to_string())),
        CapturerPlan::Window(t) if t == "w"
    ));
}

#[test]
fn capturers_are_made_step_by_step() {
    let mut setup = DxgiCapturer::from_output(1, 640, 480, None);
    let device = DeviceAnswer { result: Ok(()), device: true, context: true };
    assert!(matches!(
        setup.on_answer(CapturerAnswer::Called(Ok(()))),
        CapturerOutcome::Next(CapturerStep::CreateDevice)
    ));
    assert!(matches!(
        setup.on_answer(CapturerAnswer::Device(device)),
        CapturerOutcome::Next(CapturerStep::Duplicate)
    ));
    match setup.on_answer(CapturerAnswer::Called(Ok(()))) {
        CapturerOutcome::Next(CapturerStep::CreateTexture(plan)) => {
            assert_eq!((plan.width, plan.height, plan.format), (640, 480, PixelFormat::Bgra));
            assert_eq!((plan.usage, plan.cpu_access), (TextureUsage::Staging, CPU_ACCESS_READ));
        }
        _ => panic!(),
    }
    let texture = TextureAnswer { result: Ok(()), texture: true };
    match setup.on_answer(CapturerAnswer::Texture(texture)) {
        CapturerOutcome::Ready(c) => assert_eq!((c.width, c.height), (640, 480)),
        _ => panic!(),
    }
}

#[test]
fn devices_need_a_context() {
    let answer = |device: bool, context: bool| DeviceAnswer { result: Ok(()), device, context };
    assert!(create_d3d11_device(answer(true, true)).is_ok());
    assert_eq!(
        create_d3d11_device(answer(false, false)).err().unwrap().message(),
        "D3D11CreateDevice returned null device"
    );
    assert_eq!(
        create_d3d11_device_and_context(answer(true, false)).err().unwrap(),
        "D3D11CreateDevice returned null context"
    );
    let failed = DeviceAnswer { result: Err("no".to_string()), device: false, context: false };
    assert_eq!(
        create_d3d11_device_and_context(failed).err().unwrap(),
        "D3D11CreateDevice failed: no"
    );
    let (staging, standard) = encoder_textures(4, 2);
    assert_eq!((staging.usage, staging.cpu_access), (TextureUsage::Staging, CPU_ACCESS_WRITE));
    assert_eq!((standard.usage, standard.bind_flags), (TextureUsage::Standard, 8));
    let missing = TextureAnswer { result: Ok(()), texture: false };
    assert_eq!(texture_made(missing).err().unwrap(), "CreateTexture2D returned null");
    let broken = TextureAnswer { result: Err("e".to_string()), texture: false };
    assert_eq!(texture_made(broken).err().unwrap(), "CreateTexture2D failed: e");
}

#[test]
fn frames_are_read_out_of_mapped_memory() {
    let memory = [1, 2, 3, 4, 5, 6, 7, 8, 0, 0, 11, 12, 13, 14, 15, 16, 17, 18, 0, 0];
    let whole = DxgiCapturer { width: 2, height: 2, crop: None };
    let frame = whole.read_mapped_frame(10, &memory).unwrap();
    assert_eq!((frame.width, frame.height), (2, 2));
    assert_eq!(frame.data, vec![3, 2, 1, 4, 7, 6, 5, 8, 13, 12, 11, 14, 17, 16, 15, 18]);
    let window = DxgiCapturer { width: 2, height: 2, crop: Some(rect(0, 0, 2, 2)) };
    assert_eq!(window.read_mapped_frame(10, &memory).unwrap().data, frame.data);
    for crop in [rect(1, 1, 1, 2), rect(1, 1, 2, 2), rect(0, 0, 2, 1)] {
        let none = DxgiCapturer { width: 2, height: 2, crop: Some(crop) };
        assert!(matches!(none.read_mapped_frame(10, &memory), Err(CaptureError::ZeroCrop)));
    }
}

#[test]
fn odd_sizes_are_cut_by_a_pixel() {
    let memory: Vec<u8> = (0..48).collect();
    let odd = DxgiCapturer { width: 3, height: 3, crop: None };
    let frame = odd.read_mapped_frame(16, &memory).unwrap();
    assert_eq!((frame.width, frame.height), (2, 2));
    assert_eq!(frame.data, vec![2, 1, 0, 3, 6, 5, 4, 7, 18, 17, 16, 19, 22, 21, 20, 23]);
    let window = DxgiCapturer { width: 4, height: 3, crop: Some(rect(1, 1, 4, 3)) };
    let frame = window.read_mapped_frame(16, &memory).unwrap();
    assert_eq!((frame.width, frame.height), (2, 2));
    assert_eq!(frame.data, vec![22, 21, 20, 23, 26, 25, 24, 27, 38, 37, 36, 39, 42, 41, 40, 43]);
    let tiny = DxgiCapturer { width: 1, height: 3, crop: None };
    let frame = tiny.read_mapped_frame(16, &memory).unwrap();
    assert_eq!((frame.width, frame.height, frame.data.len()), (0, 2, 0));
    let whole = odd.read_output(16, &memory);
    assert_eq!((whole.width, whole.height, whole.data.len()), (3, 3, 36));
    assert_eq!(whole.data[32..], [42, 41, 40, 43]);
}

fn plain(w: u32, h: u32, value: u8) -> Frame {
    Frame { width: w, height: h, data: vec![value; (w * h * 4) as usize] }
}

fn pixel(frame: &Frame, x: u32, y: u32) -> u8 {
    frame.data[((y * frame.width + x) * 4) as usize]
}

#[test]
fn parts_are_joined_where_they_lie() {
    let parts = vec![(rect(-1, 0, 1, 2), plain(2, 2, 7)), (rect(1, 1, 2, 3), plain(1, 2, 9))];
    let joined = join_frames(&parts);
    assert_eq!((joined.width, joined.height), (3, 3));
    let seen: Vec<u8> = (0..9).map(|i| pixel(&joined, i % 3, i / 3)).collect();
    assert_eq!(seen, vec![7, 7, 0, 7, 7, 9, 0, 0, 9]);
    let cut = cut_to_even(joined);
    assert_eq!((cut.width, cut.height), (2, 2));
    assert_eq!((0..4).map(|i| pixel(&cut, i % 2, i / 2)).collect::<Vec<u8>>(), vec![7; 4]);
    let over = vec![(rect(0, 0, 1, 1), plain(1, 1, 3)), (rect(0, 0, 1, 1), plain(1, 1, 4))];
    assert_eq!(join_frames(&over).data, vec![4; 4]);
    assert_eq!(join_frames(&vec![]).data.len(), 0);
}

#[test]
fn two_screens_make_one_desktop() {
    let outputs = enumerate_outputs(&vec![
        output(true, 8, rect(0, 0, 1920, 1080)),
        output(true, 9, rect(1920, 0, 3840, 1080)),
    ]);
    let mut desktop = JoinedCapture::new(&outputs);
    assert!(desktop.frame().is_none());
    assert_eq!((desktop.wait_ms(0), desktop.wait_ms(1)), (0, 10));
    assert!(desktop.take_part(0, Ok(None)).is_ok());
    assert!(desktop.frame().is_none());
    assert!(desktop.take_part(1, Ok(Some(plain(1920, 1080, 5)))).is_ok());
    assert_eq!(desktop.wait_ms(1), 0);
    let frame = desktop.frame().unwrap();
    assert_eq!((frame.width, frame.height), (3840, 1080));
    assert_eq!((pixel(&frame, 1919, 1079), pixel(&frame, 1920, 0)), (0, 5));
    assert!(desktop.frame().is_none());
    assert!(matches!(
        desktop.take_part(0, Err(CaptureError::AccessLost)),
        Err(CaptureError::AccessLost)
    ));
}

#[test]
fn pictures_have_the_numbers_of_the_list() {
    let rects = vec![rect(2, 0, 3, 2), rect(0, 0, 2, 1)];
    let raws = rects.iter().map(|r| Some(RawMonitor { rect: *r, device: vec![] })).collect();
    let list = Capture::list_monitors(raws).unwrap();
    for i in 0..2 {
        let bits = vec![0; bitmap_bytes(screen_at(&rects, i).unwrap())];
        let (data, w, h) = Capture::capture_monitor_screen(i, &rects, Some(bits)).unwrap();
        assert_eq!((w, h), (list[i].width, list[i].height));
        assert_eq!(data.len() as u32, 4 * w * h);
    }
    assert_eq!(Capture::capture_monitor_screen(2, &rects, None), None);
}

#[test]
fn acquired_frames_are_released() {
    let c = DxgiCapturer { width: 1, height: 1, crop: None };
    let lost = c.grab(GrabEvent::AcquireFailed(ACCESS_LOST, String::new()));
    assert!(matches!(
        lost,
        GrabStep::Finish { unmap: false, release: false, result: Err(CaptureError::AccessLost) }
    ));
    let late = c.grab(GrabEvent::AcquireFailed(WAIT_TIMEOUT, String::new()));
    assert!(matches!(late, GrabStep::Finish { unmap: false, release: false, result: Ok(None) }));
    assert!(matches!(
        c.grab(GrabEvent::Acquired(false)),
        GrabStep::Finish { unmap: false, release: true, result: Ok(None) }
    ));
    assert!(matches!(c.grab(GrabEvent::Acquired(true)), GrabStep::CastTexture));
    assert!(matches!(c.grab(GrabEvent::Cast(Ok(()))), GrabStep::CopyAndMap));
    assert!(matches!(c.grab(GrabEvent::Mapped(Ok(()))), GrabStep::ReadMapped));
    assert!(matches!(
        c.grab(GrabEvent::Read(Err(CaptureError::ZeroCrop))),
        GrabStep::Finish { unmap: true, release: true, result: Err(CaptureError::ZeroCrop) }
    ));
}

#[test]
fn the_capture_thread_tries_again() {
    let (mut worker, step) = CaptureWorker::start(Target::Monitor(1));
    assert!(matches!(step, WorkerStep::Create { delay_ms: 0, plan: CapturerPlan::Output(1) }));
    assert!(matches!(worker.on_event(WorkerEvent::Created(false)), WorkerStep::WaitRequest));
    assert!(matches!(
        worker.on_event(WorkerEvent::Requested(GrabRequest::Grab)),
        WorkerStep::Create { delay_ms: 500, .. }
    ));
    assert!(matches!(worker.on_event(WorkerEvent::Created(true)), WorkerStep::Grab));
    assert!(matches!(
        worker.on_event(WorkerEvent::Grabbed(Err(CaptureError::AccessLost))),
        WorkerStep::Create { delay_ms: 200, .. }
    ));
    assert!(matches!(
        worker.on_event(WorkerEvent::Created(true)),
        WorkerStep::Answer(Err(CaptureError::AccessLost))
    ));
    assert!(matches!(worker.on_event(WorkerEvent::Answered), WorkerStep::WaitRequest));
    assert!(matches!(
        worker.on_event(WorkerEvent::Requested(GrabRequest::SetTarget(Target::Combined))),
        WorkerStep::Create { delay_ms: 0, plan: CapturerPlan::AllOutputs }
    ));
    assert!(matches!(worker.on_event(WorkerEvent::Created(true)), WorkerStep::WaitRequest));
    assert!(matches!(worker.on_event(WorkerEvent::Closed), WorkerStep::Exit));
}
