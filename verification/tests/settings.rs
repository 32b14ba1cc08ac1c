use ffscreencast::audio::{AudioDevice, AudioSourceType};
use ffscreencast::capture::{MonitorInfo, Rect, Target, WindowInfo};
use ffscreencast::dialog::{
    centered, command, control_colors, desktop_bounds, generate_default_password, password_of,
    pointer_position, populate_audio_devices, run_settings, wndproc, CaptureMode, ControlClass,
    DialogAction, DialogCommand, DialogInputs, DialogState, PaintAction, PaintColor, Place,
    WindowMessage, COLOR_BTNFACE, COLOR_BTNTEXT, COLOR_HIGHLIGHT, COLOR_WINDOW, ID_BTN_START,
    ID_COMBO_AUDIO_DEVICE, ID_COMBO_WINDOW, ID_EDIT_PASSWORD, ID_RADIO_AUDIO_MIC,
    ID_RADIO_COMBINED, ID_STATIC_URL, PASSWORD_CHARS,
};
use ffscreencast::wide::to_wide;

fn monitor(index: usize, x: i32, primary: bool) -> MonitorInfo {
    MonitorInfo {
        index,
        name: String::new(),
        width: 1920,
        height: 1080,
        x,
        y: 0,
        is_primary: primary,
    }
}

fn window(title: &str) -> WindowInfo {
    WindowInfo { title: title.to_string(), width: 1, height: 1, minimized: false }
}

fn device(name: &str) -> AudioDevice {
    AudioDevice { name: name.to_string(), id: format!("id-{name}") }
}

fn dialog() -> DialogState {
    DialogState::new(
        vec![monitor(0, -1920, false), monitor(1, 0, true)],
        vec![window("Editor"), window(&"t".repeat(60))],
        vec![device("Speakers"), device("Headset")],
        vec![device("Mic")],
    )
}

fn inputs(password: &str) -> DialogInputs {
    DialogInputs {
        window_index: 0,
        fps: to_wide("30"),
        password: to_wide(password),
        audio_enabled: 1,
        microphone: 0,
        device_index: 1,
    }
}

fn line(action: &DialogAction) -> String {
    match action {
        DialogAction::Create { class, text, style, place, id } => format!(
            "{} {text:?} {style:#x} {} {} {} {} {id}",
            class.name(),
            place.x,
            place.y,
            place.w,
            place.h
        ),
        DialogAction::AddText { id, text } => format!("add {id} {text}"),
        DialogAction::Reset { id } => format!("reset {id}"),
        DialogAction::SelectFirst { id } => format!("select {id}"),
        DialogAction::Enable { id, on } => format!("enable {id} {on}"),
        DialogAction::Check { id, on } => format!("check {id} {on}"),
        DialogAction::SetText { id, text } => format!("set {id} {text}"),
        DialogAction::Repaint => "repaint".to_string(),
        DialogAction::Complain { title, message } => format!("{title}: {message}"),
        DialogAction::Copy { text } => format!("copy {text}"),
        DialogAction::Close => "close".to_string(),
    }
}

fn lines(actions: &Vec<DialogAction>) -> Vec<String> {
    actions.iter().map(line).collect()
}

#[test]
fn the_dialog_is_laid_out() {
    let mut state = dialog();
    let layout = state.create("pw", "10.0.0.7");
    assert_eq!((layout.width, layout.height), (460, 724));
    let preview = Rect { left: 24, top: 40, right: 436, bottom: 260 };
    assert_eq!(layout.preview, preview);
    assert_eq!(state.preview, preview);
    let long = format!("add 2000 {}...", "t".repeat(47));
    assert_eq!(
        lines(&layout.actions),
        vec![
            "BUTTON \"Capture Source\" 0x50020007 16 16 428 324 -1",
            "BUTTON \"Combined (all monitors)\" 0x50020008 28 268 404 22 1998",
            "BUTTON \"Window:\" 0x50020008 28 296 72 22 1999",
            "COMBOBOX \"\" 0x50000043 104 294 328 200 2000",
            "add 2000 Editor",
            &long,
            "select 2000",
            "enable 2000 false",
            "BUTTON \"Frame Rate\" 0x50000007 16 340 428 52 -1",
            "EDIT \"60\" 0x50002080 28 363 52 24 3000",
            "STATIC \"fps  (1 \u{2013} 60)\" 0x50000000 92 366 100 20 -1",
            "BUTTON \"Viewer Password\" 0x50000007 16 422 428 52 -1",
            "EDIT \"\" 0x50000080 28 445 404 24 3100",
            "set 3100 pw",
            "BUTTON \"Audio\" 0x50000007 16 504 428 130 -1",
            "BUTTON \"Enable audio\" 0x50020008 28 526 404 22 6000",
            "check 6000 true",
            "BUTTON \"Disable audio\" 0x50000008 28 550 404 22 6001",
            "BUTTON \"System audio (loopback)\" 0x50020008 28 576 180 22 6002",
            "check 6002 true",
            "BUTTON \"Microphone\" 0x50000008 28 600 180 22 6003",
            "STATIC \"Device:\" 0x50000000 28 629 52 20 -1",
            "COMBOBOX \"\" 0x50000043 84 624 348 200 6004",
            "reset 6004",
            "add 6004 Speakers",
            "add 6004 Headset",
            "select 6004",
            "STATIC \"Viewer URL:\" 0x50000000 16 619 80 20 -1",
            "STATIC \"http://10.0.0.7:8080\" 0x50004000 100 619 260 20 5000",
            "BUTTON \"Copy\" 0x50000000 372 615 72 28 4000",
            "STATIC \"\" 0x50000010 16 656 428 2 -1",
            "BUTTON \"Quit\" 0x50000000 16 674 90 34 4002",
            "BUTTON \"Start\" 0x50000001 354 674 90 34 4001",
        ]
    );
    assert_eq!((ID_EDIT_PASSWORD, ID_STATIC_URL, ID_BTN_START), (3100, 5000, 4001));
    assert_eq!(ControlClass::Edit.name(), "EDIT");
}

#[test]
fn lists_without_devices_choose_nothing() {
    assert_eq!(lines(&populate_audio_devices(&vec![])), vec!["reset 6004"]);
}

#[test]
fn proposed_passwords_differ_and_are_plain() {
    let a = generate_default_password();
    let b = generate_default_password();
    assert_eq!(a.len(), 16);
    assert_ne!(a, b);
    assert!(a.chars().all(|c| PASSWORD_CHARS.contains(c)));
    assert_eq!(password_of(&vec![0, 54, 55, 255]), "A9An");
}

#[test]
fn the_primary_monitor_is_chosen_first() {
    assert_eq!(dialog().capture_mode, CaptureMode::Monitor(1));
    let none = DialogState::new(vec![monitor(0, 0, false)], vec![], vec![], vec![]);
    assert_eq!(none.capture_mode, CaptureMode::Monitor(0));
    assert_eq!(centered(1920, 460), 730);
    assert_eq!(centered(459, 460), 0);
    assert_eq!(centered(100, 460), -180);
}

#[test]
fn the_preview_is_painted() {
    let mut state = dialog();
    state.create("pw", "ip");
    let places = vec![
        Place { x: 12, y: 20, w: 100, h: 60 },
        Place { x: 112, y: 20, w: 100, h: 60 },
    ];
    let paints = state.paint(&places, &vec![true]);
    assert_eq!(paints.len(), 1 + 4 + 5);
    assert!(matches!(&paints[0], PaintAction::Fill { rect, color }
        if *rect == state.preview && *color == PaintColor::System(COLOR_WINDOW)));
    assert!(matches!(&paints[1], PaintAction::Picture { index: 0, place }
        if *place == Place { x: 36, y: 60, w: 100, h: 60 }));
    assert!(matches!(&paints[2], PaintAction::Frame { color, .. }
        if *color == PaintColor::System(COLOR_BTNFACE)));
    match &paints[4] {
        PaintAction::Text { text, rect, color } => {
            assert_eq!(text, "Monitor 0 \u{2013} 1920 \u{d7} 1080");
            assert_eq!(*rect, Rect { left: 36, top: 98, right: 136, bottom: 120 });
            assert_eq!(*color, PaintColor::Rgb(0x00FF_FFFF));
        }
        _ => panic!(),
    }
    assert!(matches!(&paints[5], PaintAction::Fill { color, .. }
        if *color == PaintColor::System(COLOR_BTNFACE)));
    assert!(matches!(&paints[7], PaintAction::Frame { rect, color }
        if *rect == Rect { left: 138, top: 62, right: 234, bottom: 118 }
            && *color == PaintColor::System(COLOR_HIGHLIGHT)));
    let empty = state.paint(&vec![], &vec![]);
    assert!(matches!(&empty[1], PaintAction::Text { text, color, .. }
        if text == "No monitors detected" && *color == PaintColor::System(COLOR_BTNTEXT)));
}

#[test]
fn clicks_choose_a_monitor() {
    let mut state = dialog();
    state.create("pw", "ip");
    let places = vec![
        Place { x: 12, y: 20, w: 100, h: 60 },
        Place { x: 112, y: 20, w: 100, h: 60 },
    ];
    let at = |x: u32, y: u32| y * 0x1_0000 + x;
    assert!(state.left_button_down(&places, at(30, 50)).is_empty());
    assert_eq!(state.capture_mode, CaptureMode::Monitor(1));
    let actions = state.left_button_down(&places, at(135, 119));
    assert_eq!(
        lines(&actions),
        vec!["check 1998 false", "check 1999 false", "enable 2000 false", "repaint"]
    );
    assert_eq!(state.capture_mode, CaptureMode::Monitor(0));
    assert!(state.left_button_down(&places, at(0xFFF0, 50)).is_empty());
    state.start(&inputs("secret"));
    assert!(matches!(state.result, Some(s) if matches!(s.target, Target::Monitor(0))));
    assert_eq!(pointer_position(0xFFFE_0003), (3, -2));
}

#[test]
fn commands_are_told_apart() {
    let of = |id: i32, notice: u32| command(notice * 0x1_0000 + id as u32);
    assert_eq!(of(ID_RADIO_COMBINED, 0), DialogCommand::ChooseCombined);
    assert_eq!(of(ID_COMBO_WINDOW, 1), DialogCommand::Noted);
    assert_eq!(of(ID_COMBO_WINDOW, 2), DialogCommand::Unknown);
    assert_eq!(of(ID_COMBO_AUDIO_DEVICE, 1), DialogCommand::Noted);
    assert_eq!(of(ID_RADIO_AUDIO_MIC, 5), DialogCommand::ListCaptureDevices);
    assert_eq!(of(ID_BTN_START, 0), DialogCommand::Start);
    assert_eq!(of(17, 0), DialogCommand::Unknown);
}

#[test]
fn commands_change_the_dialog() {
    let mut state = dialog();
    assert_eq!(
        lines(&state.on_command(DialogCommand::ChooseWindow)),
        vec!["enable 2000 true", "repaint"]
    );
    assert_eq!(state.capture_mode, CaptureMode::Window);
    assert_eq!(
        lines(&state.on_command(DialogCommand::ChooseCombined)),
        vec!["enable 2000 false", "repaint"]
    );
    assert_eq!(
        lines(&state.on_command(DialogCommand::DisableAudio)),
        vec!["enable 6004 false", "enable 6002 false", "enable 6003 false"]
    );
    assert_eq!(
        lines(&state.on_command(DialogCommand::ListCaptureDevices)),
        vec!["reset 6004", "add 6004 Mic", "select 6004"]
    );
    assert_eq!(lines(&state.on_command(DialogCommand::Quit)), vec!["close"]);
    assert!(state.on_command(DialogCommand::Noted).is_empty());
    assert_eq!(lines(&state.copy_url(&to_wide("http://x"))), vec!["copy http://x"]);
}

#[test]
fn settings_are_taken_from_the_controls() {
    let mut state = dialog();
    assert_eq!(lines(&state.start(&inputs("secret"))), vec!["close"]);
    let s = run_settings(true, state).unwrap();
    assert!(matches!(s.target, Target::Monitor(1)));
    assert_eq!((s.fps, s.host.as_str(), s.port), (30, "0.0.0.0", 8080));
    assert_eq!(s.password, "secret");
    assert!(s.audio.enabled);
    assert_eq!(s.audio.source_type, AudioSourceType::SystemAudio);
    assert_eq!(s.audio.device_id, Some("id-Headset".to_string()));
}

#[test]
fn settings_without_a_password_are_refused() {
    let mut state = dialog();
    assert_eq!(
        lines(&state.start(&inputs(""))),
        vec!["ffscreencast: Password cannot be empty."]
    );
    assert!(state.result.is_none());
    assert!(run_settings(true, state).is_none());
}

#[test]
fn proposed_passwords_are_accepted() {
    let mut state = dialog();
    let password = generate_default_password();
    state.start(&inputs(&password));
    assert_eq!(run_settings(true, state).unwrap().password, password);
}

#[test]
fn odd_settings_fall_back() {
    let settled = |window_index: i64, fps: &str, mic: u32, device_index: i64, on: u32| {
        let mut state = dialog();
        state.on_command(DialogCommand::ChooseWindow);
        let mut typed = inputs("p");
        typed.window_index = window_index;
        typed.fps = to_wide(fps);
        typed.microphone = mic;
        typed.device_index = device_index;
        typed.audio_enabled = on;
        state.start(&typed);
        run_settings(true, state).unwrap()
    };
    let s = settled(0, "0", 1, 0, 1);
    assert!(matches!(s.target, Target::Window(t) if t == "Editor"));
    assert_eq!(s.fps, 1);
    assert_eq!(s.audio.source_type, AudioSourceType::Microphone);
    assert_eq!(s.audio.device_id, Some("id-Mic".to_string()));
    let s = settled(-1, "", 1, 1, 1);
    assert!(matches!(s.target, Target::Monitor(0)));
    assert_eq!(s.fps, 60);
    assert_eq!(s.audio.device_id, None);
    let s = settled(2, "9999999", 0, 0, 0);
    assert!(matches!(s.target, Target::Monitor(0)));
    assert_eq!(s.fps, 60);
    assert!(!s.audio.enabled);
    assert_eq!(s.audio.device_id, None);
    assert!(run_settings(false, dialog()).is_none());
}

#[test]
fn messages_are_told_apart() {
    let known = [
        (0x0001, WindowMessage::Create),
        (0x0002, WindowMessage::Destroy),
        (0x000F, WindowMessage::Paint),
        (0x0010, WindowMessage::Close),
        (0x0014, WindowMessage::EraseBackground),
        (0x0111, WindowMessage::Command),
        (0x0133, WindowMessage::ColorEdit),
        (0x0138, WindowMessage::ColorStatic),
        (0x0201, WindowMessage::LeftButtonDown),
        (0x0202, WindowMessage::Other),
    ];
    for (number, message) in known {
        assert_eq!(wndproc(number), message);
    }
    assert_eq!(control_colors(WindowMessage::ColorEdit), Some((8, 5)));
    assert_eq!(control_colors(WindowMessage::ColorStatic), Some((18, 5)));
    assert_eq!(control_colors(WindowMessage::Paint), None);
}

#[test]
fn the_desktop_holds_all_monitors() {
    assert_eq!(desktop_bounds(&vec![]), None);
    let mut low = monitor(2, 100, false);
    low.y = 900;
    let monitors = vec![monitor(0, -1920, false), monitor(1, 0, true), low];
    assert_eq!(
        desktop_bounds(&monitors),
        Some(Rect { left: -1920, top: 0, right: 2020, bottom: 1980 })
    );
}
