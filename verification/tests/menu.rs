use ffscreencast::audio::{AudioDevice, AudioSettings, AudioSourceType};
use ffscreencast::capture::{Capture, CaptureError, GrabRequest, MonitorInfo, Target, WindowInfo};
use ffscreencast::stats::StatsSnapshot;
use ffscreencast::tray::{
    copy_address, handle_menu_event, menu_action, monitor_label, tooltip_text, MenuAction,
    MenuEntry, MenuNode, TrayCtx, TrayStep,
};

fn device(name: &str, id: &str) -> AudioDevice {
    AudioDevice { name: name.to_string(), id: id.to_string() }
}

fn monitor(index: usize, name: &str, primary: bool) -> MonitorInfo {
    MonitorInfo {
        index,
        name: name.to_string(),
        width: 1920,
        height: 1080,
        x: 0,
        y: 0,
        is_primary: primary,
    }
}

fn window(title: &str) -> WindowInfo {
    WindowInfo { title: title.to_string(), width: 10, height: 10, minimized: false }
}

fn tray() -> TrayCtx {
    TrayCtx::new(
        8080,
        AudioSettings {
            enabled: true,
            source_type: AudioSourceType::SystemAudio,
            device_id: Some("r2".to_string()),
        },
        vec![device("Speakers", "r1"), device("Headset", "r2")],
        vec![],
    )
}

fn stats(total_frames: u64) -> StatsSnapshot {
    StatsSnapshot {
        fps: 59,
        capture_us: 1250,
        encode_us: 90,
        write_us: 12_999,
        frame_bytes: 10_240,
        total_frames,
    }
}

fn entry(e: &MenuEntry) -> String {
    match e {
        MenuEntry::Separator => "-".to_string(),
        MenuEntry::Text { label } => label.clone(),
        MenuEntry::Item { id, label } => format!("{id}: {label}"),
    }
}

fn lines(menu: &Vec<MenuNode>) -> Vec<String> {
    let mut out = Vec::new();
    for node in menu {
        match node {
            MenuNode::Entry(e) => out.push(entry(e)),
            MenuNode::Submenu { label, entries } => {
                out.push(format!("[{label}]"));
                for e in entries {
                    out.push(format!("  {}", entry(e)));
                }
            }
        }
    }
    out
}

#[test]
fn the_menu_shows_everything() {
    let capture = Capture::new(Target::Monitor(1));
    let monitors = Ok(vec![monitor(0, "", true), monitor(1, "DISPLAY2", false)]);
    let windows = Ok(vec![window("Editor"), window(&"x".repeat(50))]);
    let menu = tray().rebuild_menu(&capture, &stats(7), &monitors, &windows);
    let long = format!("win_{}: {}...", "x".repeat(50), "x".repeat(45));
    assert_eq!(
        lines(&menu),
        vec![
            "[Stats]",
            "  59 fps",
            "  capture 1.2ms",
            "  encode 0.0ms",
            "  write  12.9ms",
            "  frame  10 KB",
            "  -",
            "  total 7 frames",
            "-",
            "[Audio]",
            "  audio_toggle: Disable audio \u{2713}",
            "  -",
            "  audio_src_SystemAudio: System audio (loopback) \u{2713}",
            "  audio_src_Microphone: Microphone",
            "  -",
            "  audio_dev_r1: Speakers",
            "  audio_dev_r2: Headset \u{2713}",
            "[Monitors]",
            "  combined: Combined (all monitors)",
            "  -",
            "  mon_0: Monitor 0 (primary) 1920x1080",
            "  mon_1: 1 (DISPLAY2) 1920x1080 \u{2713}",
            "[Windows]",
            "  win_Editor: Editor",
            &format!("  {long}"),
            "-",
            "copy_ip: Copy IP",
            "refresh: Refresh",
            "check_update: Check for updates",
            "-",
            "quit: Quit",
        ]
    );
}

#[test]
fn the_menu_says_what_is_missing() {
    let mut ctx = tray();
    ctx.audio_settings.source_type = AudioSourceType::Microphone;
    ctx.audio_settings.enabled = false;
    let capture = Capture::new(Target::Combined);
    let menu = ctx.rebuild_menu(&capture, &stats(0), &Ok(vec![]), &Err(CaptureError::Unavailable));
    let all = lines(&menu);
    assert!(all.contains(&"  No devices found".to_string()));
    assert!(all.contains(&"  audio_toggle: Enable audio".to_string()));
    assert!(all.contains(&"  combined: Combined (all monitors) \u{2713}".to_string()));
    assert!(all.contains(&"  No monitors found".to_string()));
    assert!(all.contains(&"  Failed to list windows".to_string()));
    assert!(!all.contains(&"  total 0 frames".to_string()));
    let menu = ctx.rebuild_menu(&capture, &stats(0), &Err(CaptureError::Unavailable), &Ok(vec![]));
    assert!(lines(&menu).contains(&"  Failed to list monitors".to_string()));
    assert!(lines(&menu).contains(&"  No windows found".to_string()));
}

#[test]
fn monitors_are_named() {
    assert_eq!(monitor_label(&monitor(2, "", false)), "Monitor 2");
    assert_eq!(monitor_label(&monitor(2, "D", true)), "Monitor 2 (primary)");
    assert_eq!(monitor_label(&monitor(2, "D", false)), "2 (D)");
}

#[test]
fn tooltip_shows_rate_and_times() {
    assert_eq!(
        tooltip_text(60, "1.3", "2.0"),
        "ffscreencast | 60 fps | cap 1.3ms | enc 2.0ms"
    );
}

#[test]
fn entries_lead_to_their_actions() {
    assert!(matches!(menu_action("quit"), MenuAction::Quit));
    assert!(matches!(menu_action("refresh"), MenuAction::Refresh));
    assert!(matches!(menu_action("check_update"), MenuAction::CheckUpdate));
    assert!(matches!(menu_action("copy_ip"), MenuAction::CopyIp));
    assert!(matches!(menu_action("audio_toggle"), MenuAction::ToggleAudio));
    assert!(matches!(
        menu_action("audio_src_Microphone"),
        MenuAction::SetSource(AudioSourceType::Microphone)
    ));
    assert!(matches!(menu_action("audio_src_Radio"), MenuAction::Nothing));
    assert!(matches!(menu_action("audio_dev_{0.0}"), MenuAction::SetDevice(id) if id == "{0.0}"));
    assert!(matches!(menu_action("combined"), MenuAction::Capture(Target::Combined)));
    assert!(matches!(menu_action("mon_12"), MenuAction::Capture(Target::Monitor(12))));
    assert!(matches!(menu_action("mon_x"), MenuAction::Nothing));
    assert!(matches!(menu_action("win_quit"), MenuAction::Capture(Target::Window(t)) if t == "quit"));
    assert!(matches!(menu_action("other"), MenuAction::Nothing));
}

#[test]
fn choosing_entries_changes_the_settings() {
    let mut ctx = tray();
    let mut capture = Capture::new(Target::Combined);
    assert!(matches!(handle_menu_event("audio_toggle", &mut ctx, &mut capture), TrayStep::Rebuild));
    assert!(!ctx.audio_settings.enabled);
    assert!(matches!(handle_menu_event("audio_toggle", &mut ctx, &mut capture), TrayStep::Rebuild));
    assert!(ctx.audio_settings.enabled);
    handle_menu_event("audio_src_SystemAudio", &mut ctx, &mut capture);
    assert_eq!(ctx.audio_settings.device_id, Some("r2".to_string()));
    handle_menu_event("audio_src_Microphone", &mut ctx, &mut capture);
    assert_eq!(ctx.audio_settings.device_id, None);
    handle_menu_event("audio_dev_m1", &mut ctx, &mut capture);
    assert_eq!(ctx.audio_settings.device_id, Some("m1".to_string()));
    match handle_menu_event("win_Editor", &mut ctx, &mut capture) {
        TrayStep::Retarget(GrabRequest::SetTarget(Target::Window(t))) => assert_eq!(t, "Editor"),
        _ => panic!(),
    }
    assert!(matches!(capture.target(), Target::Window(t) if t == "Editor"));
    assert!(matches!(
        handle_menu_event("copy_ip", &mut ctx, &mut capture),
        TrayStep::CopyAddress { port: 8080 }
    ));
    assert!(matches!(handle_menu_event("quit", &mut ctx, &mut capture), TrayStep::Exit));
    assert!(matches!(handle_menu_event("refresh", &mut ctx, &mut capture), TrayStep::Rebuild));
    assert!(matches!(
        handle_menu_event("check_update", &mut ctx, &mut capture),
        TrayStep::CheckUpdate
    ));
    assert!(matches!(handle_menu_event("?", &mut ctx, &mut capture), TrayStep::Nothing));
    assert_eq!(copy_address("10.0.0.7", 8080), "10.0.0.7:8080");
}
