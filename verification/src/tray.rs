//! The menu of the icon in the notification area: what it shows, and what its
//! entries do.

use vstd::prelude::*;
use vstd::string::*;

use crate::audio::{AudioDevice, AudioSettings, AudioSourceType};
use crate::capture::{Capture, CaptureError, GrabRequest, MonitorInfo, Target, WindowInfo};
use crate::stats::StatsSnapshot;
use crate::text::{
    after_prefix, begins_with, decimal, decimal_reads_back, joined, parse_number, parsed_number,
    push_decimal, same_text, strip_prefix, truncate, truncated, utf8_len,
};

verus! {

/// How many bytes of a name fit into the menu.
pub const LABEL_BYTES: usize = 48;

/// An entry of a menu.
#[derive(Debug)]
pub enum MenuEntry {
    Separator,
    /// A line that shows something.
    Text { label: String },
    /// A line that does something.
    Item { id: String, label: String },
}

/// What a user sees of an entry, and what it is known by.
pub enum EntryView {
    Separator,
    Text(Seq<char>),
    Item(Seq<char>, Seq<char>),
}

impl MenuEntry {
    /// What a user sees of the entry, and what it is known by.
    pub open spec fn view(&self) -> EntryView {
        match self {
            MenuEntry::Separator => EntryView::Separator,
            MenuEntry::Text { label } => EntryView::Text(label@),
            MenuEntry::Item { id, label } => EntryView::Item(id@, label@),
        }
    }
}

/// A part of the menu.
#[derive(Debug)]
pub enum MenuNode {
    Entry(MenuEntry),
    Submenu { label: &'static str, entries: Vec<MenuEntry> },
}

/// What a user sees of a part of the menu.
pub enum NodeView {
    Entry(EntryView),
    Submenu(Seq<char>, Seq<EntryView>),
}

/// What a user sees of entries.
pub open spec fn views(entries: Seq<MenuEntry>) -> Seq<EntryView> {
    Seq::new(entries.len(), |i: int| entries[i].view())
}

impl MenuNode {
    /// What a user sees of the part.
    pub open spec fn view(&self) -> NodeView {
        match self {
            MenuNode::Entry(entry) => NodeView::Entry(entry.view()),
            MenuNode::Submenu { label, entries } => NodeView::Submenu(label@, views(entries@)),
        }
    }
}

/// What a user sees of a menu.
pub open spec fn menu_view(menu: Seq<MenuNode>) -> Seq<NodeView> {
    Seq::new(menu.len(), |i: int| menu[i].view())
}

fn put(entries: &mut Vec<MenuEntry>, entry: MenuEntry)
    ensures
        views(final(entries)@) == views(old(entries)@).push(entry.view()),
{
    entries.push(entry);
    assert(views(entries@) =~= views(old(entries)@).push(entry.view()));
}

fn put_separator(entries: &mut Vec<MenuEntry>)
    ensures
        views(final(entries)@) == views(old(entries)@).push(EntryView::Separator),
{
    put(entries, MenuEntry::Separator);
}

fn put_text(entries: &mut Vec<MenuEntry>, label: String)
    ensures
        views(final(entries)@) == views(old(entries)@).push(EntryView::Text(label@)),
{
    put(entries, MenuEntry::Text { label });
}

fn put_item(entries: &mut Vec<MenuEntry>, id: String, label: String)
    ensures
        views(final(entries)@) == views(old(entries)@).push(EntryView::Item(id@, label@)),
{
    put(entries, MenuEntry::Item { id, label });
}

/// The sign behind what is chosen.
pub open spec fn mark(chosen: bool) -> Seq<char> {
    if chosen {
        " \u{2713}"@
    } else {
        Seq::empty()
    }
}

fn marked(label: String, chosen: bool) -> (r: String)
    ensures
        r@ == label@ + mark(chosen),
{
    if chosen {
        joined(label.as_str(), " \u{2713}")
    } else {
        assert(label@ + mark(chosen) =~= label@);
        label
    }
}

fn with_number(before: &str, n: u64, after: &str) -> (r: String)
    ensures
        r@ == before@ + decimal(n as nat) + after@,
{
    let mut s: String = before.to_owned();
    push_decimal(&mut s, n);
    s.append(after);
    s
}

/// A time in milliseconds with one digit behind the point.
pub open spec fn millis_text(what: Seq<char>, micros: u32) -> Seq<char> {
    what + decimal((micros / 1000) as nat) + "."@ + decimal((micros % 1000 / 100) as nat) + "ms"@
}

fn millis_label(what: &str, micros: u32) -> (r: String)
    ensures
        r@ == millis_text(what@, micros),
{
    let mut s: String = with_number(what, (micros / 1000) as u64, ".");
    push_decimal(&mut s, (micros % 1000 / 100) as u64);
    s.append("ms");
    s
}

/// The numbers of the stream.
pub open spec fn stats_view(s: StatsSnapshot) -> Seq<EntryView> {
    let numbers = seq![
        EntryView::Text(decimal(s.fps as nat) + " fps"@),
        EntryView::Text(millis_text("capture "@, s.capture_us)),
        EntryView::Text(millis_text("encode "@, s.encode_us)),
        EntryView::Text(millis_text("write  "@, s.write_us)),
        EntryView::Text("frame  "@ + decimal((s.frame_bytes / 1024) as nat) + " KB"@),
    ];
    if s.total_frames > 0 {
        numbers.push(EntryView::Separator).push(
            EntryView::Text("total "@ + decimal(s.total_frames as nat) + " frames"@),
        )
    } else {
        numbers
    }
}

fn stats_entries(s: &StatsSnapshot) -> (r: Vec<MenuEntry>)
    ensures
        views(r@) == stats_view(*s),
{
    let mut out: Vec<MenuEntry> = Vec::new();
    let mut rate: String = String::new();
    push_decimal(&mut rate, s.fps as u64);
    rate.append(" fps");
    assert(rate@ =~= decimal(s.fps as nat) + " fps"@);
    put_text(&mut out, rate);
    put_text(&mut out, millis_label("capture ", s.capture_us));
    put_text(&mut out, millis_label("encode ", s.encode_us));
    put_text(&mut out, millis_label("write  ", s.write_us));
    put_text(&mut out, with_number("frame  ", (s.frame_bytes / 1024) as u64, " KB"));
    if s.total_frames > 0 {
        put_separator(&mut out);
        put_text(&mut out, with_number("total ", s.total_frames, " frames"));
    }
    assert(views(out@) =~= stats_view(*s));
    out
}

/// The entry of a source of sound.
pub open spec fn source_view(audio: AudioSettings, src: AudioSourceType) -> EntryView {
    EntryView::Item("audio_src_"@ + src.word(), src.caption() + mark(audio.source_type == src))
}

/// The entry of a device.
pub open spec fn device_entry(audio: AudioSettings, d: AudioDevice) -> EntryView {
    EntryView::Item(
        "audio_dev_"@ + d.id@,
        truncated(d.name@, LABEL_BYTES as nat) + mark(
            audio.device_id matches Some(id) && id@ == d.id@,
        ),
    )
}

/// The entries of the devices.
pub open spec fn devices_view(audio: AudioSettings, devices: Seq<AudioDevice>) -> Seq<EntryView> {
    if devices.len() == 0 {
        seq![EntryView::Text("No devices found"@)]
    } else {
        Seq::new(devices.len(), |i: int| device_entry(audio, devices[i]))
    }
}

/// The settings of the sound.
pub open spec fn audio_view(
    audio: AudioSettings,
    render_devices: Seq<AudioDevice>,
    capture_devices: Seq<AudioDevice>,
) -> Seq<EntryView> {
    seq![
        EntryView::Item(
            "audio_toggle"@,
            (if audio.enabled {
                "Disable audio"@
            } else {
                "Enable audio"@
            }) + mark(audio.enabled),
        ),
        EntryView::Separator,
        source_view(audio, AudioSourceType::SystemAudio),
        source_view(audio, AudioSourceType::Microphone),
        EntryView::Separator,
    ] + devices_view(
        audio,
        match audio.source_type {
            AudioSourceType::SystemAudio => render_devices,
            AudioSourceType::Microphone => capture_devices,
        },
    )
}

fn put_source(out: &mut Vec<MenuEntry>, audio: &AudioSettings, src: AudioSourceType)
    ensures
        views(final(out)@) == views(old(out)@).push(source_view(*audio, src)),
{
    let label: String = src.label().to_owned();
    put_item(
        out,
        joined("audio_src_", src.identifier()),
        marked(label, audio.source_type == src),
    );
}

fn put_devices(out: &mut Vec<MenuEntry>, audio: &AudioSettings, devices: &Vec<AudioDevice>)
    ensures
        views(final(out)@) == views(old(out)@) + devices_view(*audio, devices@),
{
    if devices.len() == 0 {
        put_text(out, "No devices found".to_owned());
        assert(views(out@) =~= views(old(out)@) + devices_view(*audio, devices@));
        return ;
    }
    let mut i: usize = 0;
    assert(views(out@) =~= views(old(out)@) + devices_view(*audio, devices@).take(0));
    while i < devices.len()
        invariant
            i <= devices@.len(),
            devices@.len() > 0,
            views(out@) == views(old(out)@) + devices_view(*audio, devices@).take(i as int),
        decreases devices@.len() - i,
    {
        let d: &AudioDevice = &devices[i];
        let chosen: bool = match &audio.device_id {
            Some(id) => same_text(id.as_str(), d.id.as_str()),
            None => false,
        };
        put_item(
            out,
            joined("audio_dev_", d.id.as_str()),
            marked(truncate(d.name.as_str(), LABEL_BYTES), chosen),
        );
        assert(views(out@) =~= views(old(out)@) + devices_view(*audio, devices@).take(i + 1));
        i = i + 1;
    }
    assert(devices_view(*audio, devices@).take(i as int) =~= devices_view(*audio, devices@));
}

fn audio_entries(
    audio: &AudioSettings,
    render_devices: &Vec<AudioDevice>,
    capture_devices: &Vec<AudioDevice>,
) -> (r: Vec<MenuEntry>)
    ensures
        views(r@) == audio_view(*audio, render_devices@, capture_devices@),
{
    let mut out: Vec<MenuEntry> = Vec::new();
    let toggle: String = if audio.enabled {
        "Disable audio".to_owned()
    } else {
        "Enable audio".to_owned()
    };
    put_item(&mut out, "audio_toggle".to_owned(), marked(toggle, audio.enabled));
    put_separator(&mut out);
    put_source(&mut out, audio, AudioSourceType::SystemAudio);
    put_source(&mut out, audio, AudioSourceType::Microphone);
    put_separator(&mut out);
    match audio.source_type {
        AudioSourceType::SystemAudio => put_devices(&mut out, audio, render_devices),
        AudioSourceType::Microphone => put_devices(&mut out, audio, capture_devices),
    }
    assert(views(out@) =~= audio_view(*audio, render_devices@, capture_devices@));
    out
}

/// What a monitor is called.
pub open spec fn monitor_name(m: MonitorInfo) -> Seq<char> {
    if m.is_primary {
        "Monitor "@ + decimal(m.index as nat) + " (primary)"@
    } else if m.name@.len() == 0 {
        "Monitor "@ + decimal(m.index as nat)
    } else {
        decimal(m.index as nat) + " ("@ + m.name@ + ")"@
    }
}

/// What a monitor is called.
pub fn monitor_label(m: &MonitorInfo) -> (r: String)
    ensures
        r@ == monitor_name(*m),
{
    proof {
        reveal_strlit("");
        assert(m.name@.len() == 0 <==> m.name@ =~= ""@);
    }
    if m.is_primary {
        return with_number("Monitor ", m.index as u64, " (primary)");
    }
    if same_text(m.name.as_str(), "") {
        let mut s: String = "Monitor ".to_owned();
        push_decimal(&mut s, m.index as u64);
        return s;
    }
    let mut s: String = String::new();
    push_decimal(&mut s, m.index as u64);
    s.append(" (");
    s.append(m.name.as_str());
    s.append(")");
    assert(s@ =~= monitor_name(*m));
    s
}

/// The entry of a monitor.
pub open spec fn monitor_entry(current: Target, m: MonitorInfo) -> EntryView {
    EntryView::Item(
        "mon_"@ + decimal(m.index as nat),
        monitor_name(m) + " "@ + decimal(m.width as nat) + "x"@ + decimal(m.height as nat) + mark(
            current matches Target::Monitor(i) && i == m.index,
        ),
    )
}

/// The entries of the monitors, and the one for all of them together.
pub open spec fn monitors_view(
    current: Target,
    monitors: Result<Vec<MonitorInfo>, CaptureError>,
) -> Seq<EntryView> {
    seq![
        EntryView::Item("combined"@, "Combined (all monitors)"@ + mark(current is Combined)),
        EntryView::Separator,
    ] + match monitors {
        Ok(list) => if list@.len() == 0 {
            seq![EntryView::Text("No monitors found"@)]
        } else {
            Seq::new(list@.len(), |i: int| monitor_entry(current, list@[i]))
        },
        Err(_) => seq![EntryView::Text("Failed to list monitors"@)],
    }
}

fn put_monitors(out: &mut Vec<MenuEntry>, current: &Target, list: &Vec<MonitorInfo>)
    ensures
        views(final(out)@) == views(old(out)@) + Seq::new(
            list@.len(),
            |i: int| monitor_entry(*current, list@[i]),
        ),
{
    let ghost all = Seq::new(list@.len(), |i: int| monitor_entry(*current, list@[i]));
    let mut i: usize = 0;
    assert(views(out@) =~= views(old(out)@) + all.take(0));
    while i < list.len()
        invariant
            i <= list@.len(),
            all == Seq::new(list@.len(), |i: int| monitor_entry(*current, list@[i])),
            views(out@) == views(old(out)@) + all.take(i as int),
        decreases list@.len() - i,
    {
        let m: &MonitorInfo = &list[i];
        let chosen: bool = match current {
            Target::Monitor(index) => *index == m.index,
            _ => false,
        };
        let mut label: String = monitor_label(m);
        label.append(" ");
        push_decimal(&mut label, m.width as u64);
        label.append("x");
        push_decimal(&mut label, m.height as u64);
        let mut id: String = "mon_".to_owned();
        push_decimal(&mut id, m.index as u64);
        put_item(out, id, marked(label, chosen));
        assert(views(out@) =~= views(old(out)@) + all.take(i + 1));
        i = i + 1;
    }
    assert(all.take(i as int) =~= all);
}

fn monitor_entries(current: &Target, monitors: &Result<Vec<MonitorInfo>, CaptureError>) -> (r: Vec<
    MenuEntry,
>)
    ensures
        views(r@) == monitors_view(*current, *monitors),
{
    let mut out: Vec<MenuEntry> = Vec::new();
    let combined: bool = match current {
        Target::Combined => true,
        _ => false,
    };
    put_item(
        &mut out,
        "combined".to_owned(),
        marked("Combined (all monitors)".to_owned(), combined),
    );
    put_separator(&mut out);
    match monitors {
        Ok(list) => {
            if list.len() == 0 {
                put_text(&mut out, "No monitors found".to_owned());
            } else {
                put_monitors(&mut out, current, list);
            }
        },
        Err(_) => {
            put_text(&mut out, "Failed to list monitors".to_owned());
        },
    }
    assert(views(out@) =~= monitors_view(*current, *monitors));
    out
}

/// The entry of a window.
pub open spec fn window_entry(current: Target, w: WindowInfo) -> EntryView {
    EntryView::Item(
        "win_"@ + w.title@,
        truncated(w.title@, LABEL_BYTES as nat) + mark(
            current matches Target::Window(title) && title@ == w.title@,
        ),
    )
}

/// The entries of the windows.
pub open spec fn windows_view(
    current: Target,
    windows: Result<Vec<WindowInfo>, CaptureError>,
) -> Seq<EntryView> {
    match windows {
        Ok(list) => if list@.len() == 0 {
            seq![EntryView::Text("No windows found"@)]
        } else {
            Seq::new(list@.len(), |i: int| window_entry(current, list@[i]))
        },
        Err(_) => seq![EntryView::Text("Failed to list windows"@)],
    }
}

fn window_entries(current: &Target, windows: &Result<Vec<WindowInfo>, CaptureError>) -> (r: Vec<
    MenuEntry,
>)
    ensures
        views(r@) == windows_view(*current, *windows),
{
    let mut out: Vec<MenuEntry> = Vec::new();
    match windows {
        Ok(list) => {
            if list.len() == 0 {
                put_text(&mut out, "No windows found".to_owned());
                assert(views(out@) =~= windows_view(*current, *windows));
                return out;
            }
            let mut i: usize = 0;
            assert(views(out@) =~= windows_view(*current, *windows).take(0));
            while i < list.len()
                invariant
                    i <= list@.len(),
                    list@.len() > 0,
                    *windows == Ok::<Vec<WindowInfo>, CaptureError>(*list),
                    views(out@) == windows_view(*current, *windows).take(i as int),
                decreases list@.len() - i,
            {
                let w: &WindowInfo = &list[i];
                let chosen: bool = match current {
                    Target::Window(title) => same_text(title.as_str(), w.title.as_str()),
                    _ => false,
                };
                put_item(
                    &mut out,
                    joined("win_", w.title.as_str()),
                    marked(truncate(w.title.as_str(), LABEL_BYTES), chosen),
                );
                assert(views(out@) =~= windows_view(*current, *windows).take(i + 1));
                i = i + 1;
            }
            assert(windows_view(*current, *windows).take(i as int) =~= windows_view(
                *current,
                *windows,
            ));
        },
        Err(_) => {
            put_text(&mut out, "Failed to list windows".to_owned());
            assert(views(out@) =~= windows_view(*current, *windows));
        },
    }
    out
}

/// The menu.
pub open spec fn menu_of(
    current: Target,
    s: StatsSnapshot,
    audio: AudioSettings,
    render_devices: Seq<AudioDevice>,
    capture_devices: Seq<AudioDevice>,
    monitors: Result<Vec<MonitorInfo>, CaptureError>,
    windows: Result<Vec<WindowInfo>, CaptureError>,
) -> Seq<NodeView> {
    seq![
        NodeView::Submenu("Stats"@, stats_view(s)),
        NodeView::Entry(EntryView::Separator),
        NodeView::Submenu("Audio"@, audio_view(audio, render_devices, capture_devices)),
        NodeView::Submenu("Monitors"@, monitors_view(current, monitors)),
        NodeView::Submenu("Windows"@, windows_view(current, windows)),
        NodeView::Entry(EntryView::Separator),
        NodeView::Entry(EntryView::Item("copy_ip"@, "Copy IP"@)),
        NodeView::Entry(EntryView::Item("refresh"@, "Refresh"@)),
        NodeView::Entry(EntryView::Item("check_update"@, "Check for updates"@)),
        NodeView::Entry(EntryView::Separator),
        NodeView::Entry(EntryView::Item("quit"@, "Quit"@)),
    ]
}

fn item(id: &str, label: &str) -> (r: MenuNode)
    ensures
        r.view() == NodeView::Entry(EntryView::Item(id@, label@)),
{
    MenuNode::Entry(MenuEntry::Item { id: id.to_owned(), label: label.to_owned() })
}

/// Builds the menu.
pub fn build_menu(
    current: &Target,
    s: &StatsSnapshot,
    audio: &AudioSettings,
    render_devices: &Vec<AudioDevice>,
    capture_devices: &Vec<AudioDevice>,
    monitors: &Result<Vec<MonitorInfo>, CaptureError>,
    windows: &Result<Vec<WindowInfo>, CaptureError>,
) -> (r: Vec<MenuNode>)
    ensures
        menu_view(r@) == menu_of(
            *current,
            *s,
            *audio,
            render_devices@,
            capture_devices@,
            *monitors,
            *windows,
        ),
{
    let mut menu: Vec<MenuNode> = Vec::new();
    menu.push(MenuNode::Submenu { label: "Stats", entries: stats_entries(s) });
    menu.push(MenuNode::Entry(MenuEntry::Separator));
    menu.push(
        MenuNode::Submenu {
            label: "Audio",
            entries: audio_entries(audio, render_devices, capture_devices),
        },
    );
    menu.push(
        MenuNode::Submenu { label: "Monitors", entries: monitor_entries(current, monitors) },
    );
    menu.push(MenuNode::Submenu { label: "Windows", entries: window_entries(current, windows) });
    menu.push(MenuNode::Entry(MenuEntry::Separator));
    menu.push(item("copy_ip", "Copy IP"));
    menu.push(item("refresh", "Refresh"));
    menu.push(item("check_update", "Check for updates"));
    menu.push(MenuNode::Entry(MenuEntry::Separator));
    menu.push(item("quit", "Quit"));
    assert(menu_view(menu@) =~= menu_of(
        *current,
        *s,
        *audio,
        render_devices@,
        capture_devices@,
        *monitors,
        *windows,
    ));
    menu
}

/// What is shown while the pointer rests on the icon. The times are in
/// milliseconds, in text.
pub fn tooltip_text(fps: u32, capture_ms: &str, encode_ms: &str) -> (r: String)
    ensures
        r@ == "ffscreencast | "@ + decimal(fps as nat) + " fps | cap "@ + capture_ms@
            + "ms | enc "@ + encode_ms@ + "ms"@,
{
    let mut s: String = with_number("ffscreencast | ", fps as u64, " fps | cap ");
    s.append(capture_ms);
    s.append("ms | enc ");
    s.append(encode_ms);
    s.append("ms");
    s
}

/// What an entry of the menu does.
#[derive(Debug)]
pub enum MenuAction {
    Quit,
    Refresh,
    CheckUpdate,
    CopyIp,
    ToggleAudio,
    SetSource(AudioSourceType),
    SetDevice(String),
    Capture(Target),
    Nothing,
}

/// Whether `action` is what the entry known by `id` does.
pub open spec fn does(id: Seq<char>, action: MenuAction) -> bool {
    if id == "quit"@ {
        action == MenuAction::Quit
    } else if id == "refresh"@ {
        action == MenuAction::Refresh
    } else if id == "check_update"@ {
        action == MenuAction::CheckUpdate
    } else if id == "copy_ip"@ {
        action == MenuAction::CopyIp
    } else if id == "audio_toggle"@ {
        action == MenuAction::ToggleAudio
    } else if after_prefix(id, "audio_src_"@) is Some {
        let word = after_prefix(id, "audio_src_"@)->Some_0;
        if word == AudioSourceType::SystemAudio.word() {
            action == MenuAction::SetSource(AudioSourceType::SystemAudio)
        } else if word == AudioSourceType::Microphone.word() {
            action == MenuAction::SetSource(AudioSourceType::Microphone)
        } else {
            action == MenuAction::Nothing
        }
    } else if after_prefix(id, "audio_dev_"@) is Some {
        action matches MenuAction::SetDevice(device) && device@ == after_prefix(
            id,
            "audio_dev_"@,
        )->Some_0
    } else if id == "combined"@ {
        action == MenuAction::Capture(Target::Combined)
    } else if after_prefix(id, "mon_"@) is Some {
        match parsed_number(after_prefix(id, "mon_"@)->Some_0, usize::MAX as nat) {
            Some(n) => action == MenuAction::Capture(Target::Monitor(n as usize)),
            None => action == MenuAction::Nothing,
        }
    } else if after_prefix(id, "win_"@) is Some {
        action matches MenuAction::Capture(Target::Window(title)) && title@ == after_prefix(
            id,
            "win_"@,
        )->Some_0
    } else {
        action == MenuAction::Nothing
    }
}

/// What the entry known by `id` does.
pub fn menu_action(id: &str) -> (r: MenuAction)
    ensures
        does(id@, r),
{
    if same_text(id, "quit") {
        return MenuAction::Quit;
    }
    if same_text(id, "refresh") {
        return MenuAction::Refresh;
    }
    if same_text(id, "check_update") {
        return MenuAction::CheckUpdate;
    }
    if same_text(id, "copy_ip") {
        return MenuAction::CopyIp;
    }
    if same_text(id, "audio_toggle") {
        return MenuAction::ToggleAudio;
    }
    if let Some(word) = strip_prefix(id, "audio_src_") {
        if same_text(word.as_str(), "SystemAudio") {
            return MenuAction::SetSource(AudioSourceType::SystemAudio);
        }
        if same_text(word.as_str(), "Microphone") {
            return MenuAction::SetSource(AudioSourceType::Microphone);
        }
        return MenuAction::Nothing;
    }
    if let Some(device) = strip_prefix(id, "audio_dev_") {
        return MenuAction::SetDevice(device);
    }
    if same_text(id, "combined") {
        return MenuAction::Capture(Target::Combined);
    }
    if let Some(index) = strip_prefix(id, "mon_") {
        return match parse_number(index.as_str(), usize::MAX as u64) {
            Some(n) => MenuAction::Capture(Target::Monitor(n as usize)),
            None => MenuAction::Nothing,
        };
    }
    if let Some(title) = strip_prefix(id, "win_") {
        return MenuAction::Capture(Target::Window(title));
    }
    MenuAction::Nothing
}

/// What the menu is made from.
pub struct TrayCtx {
    pub port: u16,
    pub audio_settings: AudioSettings,
    pub render_devices: Vec<AudioDevice>,
    pub capture_devices: Vec<AudioDevice>,
}

/// What is left to do after an entry was chosen.
pub enum TrayStep {
    /// End the program.
    Exit,
    /// Show the menu anew.
    Rebuild,
    /// Look for a newer release.
    CheckUpdate,
    /// Put the address of the server on the clipboard.
    CopyAddress { port: u16 },
    /// Hand the request to the capture thread and show the menu anew.
    Retarget(GrabRequest),
    Nothing,
}

/// Another source of sound, with its own choice of device.
pub open spec fn source_chosen(audio: AudioSettings, src: AudioSourceType) -> AudioSettings {
    if audio.source_type == src {
        audio
    } else {
        AudioSettings { source_type: src, device_id: None, ..audio }
    }
}

impl TrayCtx {
    /// The menu of a program that listens at `port`.
    pub fn new(
        port: u16,
        audio_settings: AudioSettings,
        render_devices: Vec<AudioDevice>,
        capture_devices: Vec<AudioDevice>,
    ) -> (r: Self)
        ensures
            r == (TrayCtx { port, audio_settings, render_devices, capture_devices }),
    {
        TrayCtx { port, audio_settings, render_devices, capture_devices }
    }

    /// The menu as it has to be shown now.
    pub fn rebuild_menu(
        &self,
        capture: &Capture,
        s: &StatsSnapshot,
        monitors: &Result<Vec<MonitorInfo>, CaptureError>,
        windows: &Result<Vec<WindowInfo>, CaptureError>,
    ) -> (r: Vec<MenuNode>)
        ensures
            menu_view(r@) == menu_of(
                capture.current(),
                *s,
                self.audio_settings,
                self.render_devices@,
                self.capture_devices@,
                *monitors,
                *windows,
            ),
    {
        build_menu(
            &capture.target(),
            s,
            &self.audio_settings,
            &self.render_devices,
            &self.capture_devices,
            monitors,
            windows,
        )
    }
}

/// What choosing an entry does.
pub open spec fn handled(
    action: MenuAction,
    before: TrayCtx,
    after: TrayCtx,
    capture: Capture,
    captured: Capture,
    step: TrayStep,
) -> bool {
    match action {
        MenuAction::Quit => after == before && captured == capture && step == TrayStep::Exit,
        MenuAction::Refresh => after == before && captured == capture && step == TrayStep::Rebuild,
        MenuAction::CheckUpdate => after == before && captured == capture && step
            == TrayStep::CheckUpdate,
        MenuAction::CopyIp => after == before && captured == capture && step
            == TrayStep::CopyAddress { port: before.port },
        MenuAction::ToggleAudio => {
            &&& after == TrayCtx {
                audio_settings: AudioSettings {
                    enabled: !before.audio_settings.enabled,
                    ..before.audio_settings
                },
                ..before
            }
            &&& captured == capture
            &&& step == TrayStep::Rebuild
        },
        MenuAction::SetSource(src) => {
            &&& after == TrayCtx {
                audio_settings: source_chosen(before.audio_settings, src),
                ..before
            }
            &&& captured == capture
            &&& step == TrayStep::Rebuild
        },
        MenuAction::SetDevice(device) => {
            &&& after == TrayCtx {
                audio_settings: AudioSettings {
                    device_id: Some(device),
                    ..before.audio_settings
                },
                ..before
            }
            &&& captured == capture
            &&& step == TrayStep::Rebuild
        },
        MenuAction::Capture(target) => {
            &&& after == before
            &&& captured.current() == target
            &&& step == TrayStep::Retarget(GrabRequest::SetTarget(target))
        },
        MenuAction::Nothing => after == before && captured == capture && step == TrayStep::Nothing,
    }
}

/// Does what the entry known by `id` is for.
pub fn handle_menu_event(id: &str, tray: &mut TrayCtx, capture: &mut Capture) -> (step: TrayStep)
    ensures
        exists|action: MenuAction| #[trigger]
            does(id@, action) && handled(
                action,
                *old(tray),
                *final(tray),
                *old(capture),
                *final(capture),
                step,
            ),
{
    let action: MenuAction = menu_action(id);
    let ghost chosen = action;
    let step: TrayStep = match action {
        MenuAction::Quit => TrayStep::Exit,
        MenuAction::Refresh => TrayStep::Rebuild,
        MenuAction::CheckUpdate => TrayStep::CheckUpdate,
        MenuAction::CopyIp => TrayStep::CopyAddress { port: tray.port },
        MenuAction::ToggleAudio => {
            tray.audio_settings.enabled = !tray.audio_settings.enabled;
            TrayStep::Rebuild
        },
        MenuAction::SetSource(src) => {
            if tray.audio_settings.source_type != src {
                tray.audio_settings.source_type = src;
                tray.audio_settings.device_id = None;
            }
            TrayStep::Rebuild
        },
        MenuAction::SetDevice(device) => {
            tray.audio_settings.device_id = Some(device);
            TrayStep::Rebuild
        },
        MenuAction::Capture(target) => TrayStep::Retarget(capture.set_target(target)),
        MenuAction::Nothing => TrayStep::Nothing,
    };
    assert(does(id@, chosen));
    step
}

/// An address and a port.
pub fn copy_address(ip: &str, port: u16) -> (r: String)
    ensures
        r@ == ip@ + ":"@ + decimal(port as nat),
{
    let mut s: String = joined(ip, ":");
    push_decimal(&mut s, port as u64);
    s
}

proof fn lemma_prefix_char(s: Seq<char>, prefix: Seq<char>, i: int)
    requires
        0 <= i < prefix.len(),
        begins_with(s, prefix),
    ensures
        i < s.len(),
        s[i] == prefix[i],
{
    assert(s.take(prefix.len() as int)[i] == prefix[i]);
}

proof fn lemma_sum_after_prefix(prefix: Seq<char>, rest: Seq<char>)
    ensures
        after_prefix(prefix + rest, prefix) == Some(rest),
{
    let s = prefix + rest;
    assert(s.take(prefix.len() as int) =~= prefix);
    assert(s.skip(prefix.len() as int) =~= rest);
}

/// The entry of a window turns the capture to that window.
pub proof fn window_entries_capture_the_window(current: Target, w: WindowInfo, action: MenuAction)
    requires
        window_entry(current, w) matches EntryView::Item(id, _) && does(id, action),
    ensures
        action matches MenuAction::Capture(Target::Window(title)) && title@ == w.title@,
{
    reveal_words();
    let id = "win_"@ + w.title@;
    lemma_sum_after_prefix("win_"@, w.title@);
    assert(id[0] == 'w');
    if begins_with(id, "audio_src_"@) {
        lemma_prefix_char(id, "audio_src_"@, 0);
    }
    if begins_with(id, "audio_dev_"@) {
        lemma_prefix_char(id, "audio_dev_"@, 0);
    }
    if begins_with(id, "mon_"@) {
        lemma_prefix_char(id, "mon_"@, 0);
    }
}

/// The entry of a monitor turns the capture to that monitor.
pub proof fn monitor_entries_capture_the_monitor(
    current: Target,
    m: MonitorInfo,
    action: MenuAction,
)
    requires
        monitor_entry(current, m) matches EntryView::Item(id, _) && does(id, action),
    ensures
        action == MenuAction::Capture(Target::Monitor(m.index)),
{
    reveal_words();
    let digits = decimal(m.index as nat);
    let id = "mon_"@ + digits;
    lemma_sum_after_prefix("mon_"@, digits);
    decimal_reads_back(m.index as nat, usize::MAX as nat);
    assert(id[0] == 'm');
    if begins_with(id, "audio_src_"@) {
        lemma_prefix_char(id, "audio_src_"@, 0);
    }
    if begins_with(id, "audio_dev_"@) {
        lemma_prefix_char(id, "audio_dev_"@, 0);
    }
}

/// The entry of a device chooses that device.
pub proof fn device_entries_choose_the_device(
    audio: AudioSettings,
    d: AudioDevice,
    action: MenuAction,
)
    requires
        device_entry(audio, d) matches EntryView::Item(id, _) && does(id, action),
    ensures
        action matches MenuAction::SetDevice(id) && id@ == d.id@,
{
    reveal_words();
    let id = "audio_dev_"@ + d.id@;
    lemma_sum_after_prefix("audio_dev_"@, d.id@);
    assert(id[6] == 'd');
    if begins_with(id, "audio_src_"@) {
        lemma_prefix_char(id, "audio_src_"@, 6);
    }
}

/// The entry of a source of sound chooses that source.
pub proof fn source_entries_choose_the_source(
    audio: AudioSettings,
    src: AudioSourceType,
    action: MenuAction,
)
    requires
        source_view(audio, src) matches EntryView::Item(id, _) && does(id, action),
    ensures
        action == MenuAction::SetSource(src),
{
    reveal_words();
    reveal_strlit("SystemAudio");
    reveal_strlit("Microphone");
    let id = "audio_src_"@ + src.word();
    lemma_sum_after_prefix("audio_src_"@, src.word());
    assert(id[6] == 's');
    assert("SystemAudio"@[0] != "Microphone"@[0]);
}

/// The entries that the menu always has do what they say.
pub proof fn lasting_entries_do_what_they_say(action: MenuAction)
    ensures
        does("quit"@, action) <==> action == MenuAction::Quit,
        does("refresh"@, action) <==> action == MenuAction::Refresh,
        does("check_update"@, action) <==> action == MenuAction::CheckUpdate,
        does("copy_ip"@, action) <==> action == MenuAction::CopyIp,
        does("audio_toggle"@, action) <==> action == MenuAction::ToggleAudio,
        does("combined"@, action) <==> action == MenuAction::Capture(Target::Combined),
{
    reveal_words();
    if begins_with("combined"@, "audio_src_"@) {
        lemma_prefix_char("combined"@, "audio_src_"@, 0);
    }
    if begins_with("combined"@, "audio_dev_"@) {
        lemma_prefix_char("combined"@, "audio_dev_"@, 0);
    }
}

proof fn reveal_words()
    ensures
        "quit"@.len() == 4 && "quit"@[0] == 'q',
        "refresh"@.len() == 7 && "refresh"@[0] == 'r',
        "check_update"@.len() == 12 && "check_update"@[0] == 'c',
        "copy_ip"@.len() == 7 && "copy_ip"@[0] == 'c',
        "combined"@.len() == 8 && "combined"@[0] == 'c',
        "audio_toggle"@.len() == 12 && "audio_toggle"@[0] == 'a' && "audio_toggle"@[6] == 't',
        "audio_src_"@.len() == 10 && "audio_src_"@[0] == 'a' && "audio_src_"@[6] == 's',
        "audio_dev_"@.len() == 10 && "audio_dev_"@[0] == 'a' && "audio_dev_"@[6] == 'd',
        "mon_"@.len() == 4 && "mon_"@[0] == 'm',
        "win_"@.len() == 4 && "win_"@[0] == 'w',
{
    reveal_strlit("quit");
    reveal_strlit("refresh");
    reveal_strlit("check_update");
    reveal_strlit("copy_ip");
    reveal_strlit("combined");
    reveal_strlit("audio_toggle");
    reveal_strlit("audio_src_");
    reveal_strlit("audio_dev_");
    reveal_strlit("mon_");
    reveal_strlit("win_");
}

/// Choosing the switch of the sound twice leaves everything as it was.
pub proof fn toggling_twice_restores(
    first: TrayCtx,
    second: TrayCtx,
    third: TrayCtx,
    capture: Capture,
    a: TrayStep,
    b: TrayStep,
)
    requires
        handled(MenuAction::ToggleAudio, first, second, capture, capture, a),
        handled(MenuAction::ToggleAudio, second, third, capture, capture, b),
    ensures
        third == first,
{
}

proof fn lemma_choice(
    id: &str,
    tray: &&mut TrayCtx,
    capture: &&mut Capture,
    before: TrayCtx,
    after: TrayCtx,
    from: Capture,
    to: Capture,
    step: TrayStep,
) -> (action: MenuAction)
    requires
        call_ensures(handle_menu_event, (id, *tray, *capture), step),
        before == **tray,
        after == *final(*tray),
        from == **capture,
        to == *final(*capture),
    ensures
        does(id@, action),
        handled(action, before, after, from, to, step),
{
    choose|action: MenuAction| #[trigger]
        does(id@, action) && handled(action, before, after, from, to, step)
}

/// Choosing a window in the menu captures the window of that title, and tells
/// the capture thread the same; the settings of the sound stay.
pub proof fn chosen_windows_are_captured(
    id: &str,
    tray: &&mut TrayCtx,
    capture: &&mut Capture,
    before: TrayCtx,
    after: TrayCtx,
    from: Capture,
    to: Capture,
    step: TrayStep,
    w: WindowInfo,
)
    requires
        call_ensures(handle_menu_event, (id, *tray, *capture), step),
        before == **tray,
        after == *final(*tray),
        from == **capture,
        to == *final(*capture),
        id@ == "win_"@ + w.title@,
    ensures
        to.current() matches Target::Window(title) && title@ == w.title@,
        step == TrayStep::Retarget(GrabRequest::SetTarget(to.current())),
        after == before,
{
    let action = lemma_choice(id, tray, capture, before, after, from, to, step);
    window_entries_capture_the_window(Target::Combined, w, action);
}

/// Choosing a monitor in the menu captures the monitor of that number, and
/// choosing all of them captures them together; the capture thread is told the
/// same, and the settings of the sound stay.
pub proof fn chosen_monitors_are_captured(
    id: &str,
    tray: &&mut TrayCtx,
    capture: &&mut Capture,
    before: TrayCtx,
    after: TrayCtx,
    from: Capture,
    to: Capture,
    step: TrayStep,
    m: MonitorInfo,
)
    requires
        call_ensures(handle_menu_event, (id, *tray, *capture), step),
        before == **tray,
        after == *final(*tray),
        from == **capture,
        to == *final(*capture),
        id@ == "mon_"@ + decimal(m.index as nat) || id@ == "combined"@,
    ensures
        to.current() == (if id@ == "combined"@ {
            Target::Combined
        } else {
            Target::Monitor(m.index)
        }),
        step == TrayStep::Retarget(GrabRequest::SetTarget(to.current())),
        after == before,
{
    let action = lemma_choice(id, tray, capture, before, after, from, to, step);
    lasting_entries_do_what_they_say(action);
    if id@ != "combined"@ {
        monitor_entries_capture_the_monitor(Target::Combined, m, action);
    }
}

/// Choosing a device makes it the one that is used, and changes nothing else.
pub proof fn chosen_devices_are_used(
    id: &str,
    tray: &&mut TrayCtx,
    capture: &&mut Capture,
    before: TrayCtx,
    after: TrayCtx,
    from: Capture,
    to: Capture,
    step: TrayStep,
    d: AudioDevice,
)
    requires
        call_ensures(handle_menu_event, (id, *tray, *capture), step),
        before == **tray,
        after == *final(*tray),
        from == **capture,
        to == *final(*capture),
        id@ == "audio_dev_"@ + d.id@,
    ensures
        after.audio_settings.device_id matches Some(used) && used@ == d.id@,
        after.audio_settings.enabled == before.audio_settings.enabled,
        after.audio_settings.source_type == before.audio_settings.source_type,
        to.current() == from.current(),
        step is Rebuild,
{
    let action = lemma_choice(id, tray, capture, before, after, from, to, step);
    device_entries_choose_the_device(before.audio_settings, d, action);
}

/// Choosing a source of sound makes it the source; a device stays chosen exactly
/// if the source was that one already, and whether there is sound stays.
pub proof fn chosen_sources_are_used(
    id: &str,
    tray: &&mut TrayCtx,
    capture: &&mut Capture,
    before: TrayCtx,
    after: TrayCtx,
    from: Capture,
    to: Capture,
    step: TrayStep,
    src: AudioSourceType,
)
    requires
        call_ensures(handle_menu_event, (id, *tray, *capture), step),
        before == **tray,
        after == *final(*tray),
        from == **capture,
        to == *final(*capture),
        id@ == "audio_src_"@ + (match src {
            AudioSourceType::SystemAudio => "SystemAudio"@,
            AudioSourceType::Microphone => "Microphone"@,
        }),
    ensures
        after.audio_settings.source_type == src,
        after.audio_settings.enabled == before.audio_settings.enabled,
        after.audio_settings.device_id == (if before.audio_settings.source_type == src {
            before.audio_settings.device_id
        } else {
            None
        }),
        to.current() == from.current(),
        step is Rebuild,
{
    let action = lemma_choice(id, tray, capture, before, after, from, to, step);
    source_entries_choose_the_source(before.audio_settings, src, action);
}

/// The switch of the sound turns it on or off and changes nothing else; the
/// other lasting entries change nothing at all and do what they say.
pub proof fn lasting_entries_are_done(
    id: &str,
    tray: &&mut TrayCtx,
    capture: &&mut Capture,
    before: TrayCtx,
    after: TrayCtx,
    from: Capture,
    to: Capture,
    step: TrayStep,
)
    requires
        call_ensures(handle_menu_event, (id, *tray, *capture), step),
        before == **tray,
        after == *final(*tray),
        from == **capture,
        to == *final(*capture),
    ensures
        id@ == "audio_toggle"@ ==> {
            let was = before.audio_settings;
            let is = after.audio_settings;
            &&& is.enabled == !was.enabled
            &&& is.source_type == was.source_type
            &&& is.device_id == was.device_id
            &&& step is Rebuild
        },
        id@ == "copy_ip"@ ==> step == (TrayStep::CopyAddress { port: before.port }),
        id@ == "quit"@ ==> step is Exit,
        id@ == "refresh"@ ==> step is Rebuild,
        id@ == "check_update"@ ==> step is CheckUpdate,
        id@ == "copy_ip"@ || id@ == "quit"@ || id@ == "refresh"@ || id@ == "check_update"@
            ==> after == before,
        id@ == "copy_ip"@ || id@ == "quit"@ || id@ == "refresh"@ || id@ == "check_update"@ || id@
            == "audio_toggle"@ ==> to == from,
        after.port == before.port,
        after.render_devices == before.render_devices,
        after.capture_devices == before.capture_devices,
{
    let action = lemma_choice(id, tray, capture, before, after, from, to, step);
    lasting_entries_do_what_they_say(action);
    reveal_words();
    assert(id@ == "quit"@ ==> id@.len() == 4);
}

/// An entry that is known by nothing the menu knows does nothing.
pub proof fn unknown_entries_do_nothing(
    id: &str,
    tray: &&mut TrayCtx,
    capture: &&mut Capture,
    before: TrayCtx,
    after: TrayCtx,
    from: Capture,
    to: Capture,
    step: TrayStep,
)
    requires
        call_ensures(handle_menu_event, (id, *tray, *capture), step),
        before == **tray,
        after == *final(*tray),
        from == **capture,
        to == *final(*capture),
        id@.len() > 0,
        id@[0] != 'q' && id@[0] != 'r' && id@[0] != 'c' && id@[0] != 'a' && id@[0] != 'm' && id@[0]
            != 'w',
    ensures
        after == before,
        to == from,
        step is Nothing,
{
    let action = lemma_choice(id, tray, capture, before, after, from, to, step);
    reveal_words();
    if begins_with(id@, "audio_src_"@) {
        lemma_prefix_char(id@, "audio_src_"@, 0);
    }
    if begins_with(id@, "audio_dev_"@) {
        lemma_prefix_char(id@, "audio_dev_"@, 0);
    }
    if begins_with(id@, "mon_"@) {
        lemma_prefix_char(id@, "mon_"@, 0);
    }
    if begins_with(id@, "win_"@) {
        lemma_prefix_char(id@, "win_"@, 0);
    }
}

/// Whether a label shows a text, with the sign behind it exactly if it is
/// chosen.
pub open spec fn shows_label(label: Seq<char>, text: Seq<char>, chosen: bool) -> bool {
    label == (if chosen {
        text + seq![' ', '\u{2713}']
    } else {
        text
    })
}

proof fn lemma_mark(text: Seq<char>, chosen: bool)
    ensures
        shows_label(text + mark(chosen), text, chosen),
{
    reveal_strlit(" \u{2713}");
    assert(mark(true) =~= seq![' ', '\u{2713}']);
    assert(text + Seq::<char>::empty() =~= text);
}

proof fn lemma_entry(node: MenuNode, label: Seq<char>, shown: Seq<EntryView>, k: int) -> (entry:
    MenuEntry)
    requires
        node.view() == NodeView::Submenu(label, shown),
        0 <= k < shown.len(),
    ensures
        node matches MenuNode::Submenu { entries, .. } && k < entries@.len() && entries@[k]
            == entry,
        entry.view() == shown[k],
{
    let entries = node->entries;
    assert(views(entries@) == shown);
    assert(views(entries@)[k] == entries@[k].view());
    entries@[k]
}

/// Whether entry `k` of part `n` of a menu is an item that is known by `id` and
/// shows a text, with the sign exactly if it is chosen.
pub open spec fn has_item(
    menu: Seq<MenuNode>,
    n: int,
    k: int,
    id: Seq<char>,
    text: Seq<char>,
    chosen: bool,
) -> bool {
    menu[n] matches MenuNode::Submenu { entries, .. } && k < entries@.len() && (
    entries@[k] matches MenuEntry::Item { id: i, label } && i@ == id && shows_label(
        label@,
        text,
        chosen,
    ))
}

/// The menu lists all monitors in order behind the entry for all together, each
/// known by its number, with its size and with the sign exactly if it is the one
/// that is captured.
pub proof fn the_menu_lists_the_monitors(
    tray: TrayCtx,
    capture: Capture,
    s: StatsSnapshot,
    monitors: Result<Vec<MonitorInfo>, CaptureError>,
    windows: Result<Vec<WindowInfo>, CaptureError>,
    r: Vec<MenuNode>,
    list: Vec<MonitorInfo>,
    i: int,
)
    requires
        call_ensures(
            TrayCtx::rebuild_menu,
            (&tray, &capture, &s, &monitors, &windows),
            r,
        ),
        monitors == Ok::<Vec<MonitorInfo>, CaptureError>(list),
        0 <= i < list@.len(),
    ensures
        r@.len() > 3,
        has_item(
            r@,
            3,
            0,
            "combined"@,
            "Combined (all monitors)"@,
            capture.current() is Combined,
        ),
        has_item(
            r@,
            3,
            2 + i,
            "mon_"@ + decimal(list@[i].index as nat),
            monitor_name(list@[i]) + " "@ + decimal(list@[i].width as nat) + "x"@ + decimal(
                list@[i].height as nat,
            ),
            capture.current() == Target::Monitor(list@[i].index),
        ),
{
    let v = menu_view(r@);
    assert(v.len() == r@.len());
    assert(v[3] == r@[3].view());
    let shown = monitors_view(capture.current(), monitors);
    let a = lemma_entry(r@[3], "Monitors"@, shown, 0);
    let b = lemma_entry(r@[3], "Monitors"@, shown, 2 + i);
    assert(shown[2 + i] == monitor_entry(capture.current(), list@[i]));
    lemma_mark("Combined (all monitors)"@, capture.current() is Combined);
    lemma_mark(
        monitor_name(list@[i]) + " "@ + decimal(list@[i].width as nat) + "x"@ + decimal(
            list@[i].height as nat,
        ),
        capture.current() == Target::Monitor(list@[i].index),
    );
}

/// The menu lists all windows in order, each known by its whole title, which it
/// shows where it is short, with the sign exactly if it is the one that is
/// captured.
pub proof fn the_menu_lists_the_windows(
    tray: TrayCtx,
    capture: Capture,
    s: StatsSnapshot,
    monitors: Result<Vec<MonitorInfo>, CaptureError>,
    windows: Result<Vec<WindowInfo>, CaptureError>,
    r: Vec<MenuNode>,
    list: Vec<WindowInfo>,
    i: int,
)
    requires
        call_ensures(
            TrayCtx::rebuild_menu,
            (&tray, &capture, &s, &monitors, &windows),
            r,
        ),
        windows == Ok::<Vec<WindowInfo>, CaptureError>(list),
        0 <= i < list@.len(),
    ensures
        r@.len() > 4,
        has_item(
            r@,
            4,
            i,
            "win_"@ + list@[i].title@,
            truncated(list@[i].title@, 48),
            capture.current() matches Target::Window(title) && title@ == list@[i].title@,
        ),
        utf8_len(list@[i].title@) <= 48 ==> has_item(
            r@,
            4,
            i,
            "win_"@ + list@[i].title@,
            list@[i].title@,
            capture.current() matches Target::Window(title) && title@ == list@[i].title@,
        ),
{
    let v = menu_view(r@);
    assert(v.len() == r@.len());
    assert(v[4] == r@[4].view());
    let shown = windows_view(capture.current(), windows);
    let a = lemma_entry(r@[4], "Windows"@, shown, i);
    assert(shown[i] == window_entry(capture.current(), list@[i]));
    lemma_mark(
        truncated(list@[i].title@, 48),
        capture.current() matches Target::Window(title) && title@ == list@[i].title@,
    );
}

/// The menu lists the devices of the source that is chosen, in order, each known
/// by its identifier, with the sign exactly if it is the one that is used.
pub proof fn the_menu_lists_the_devices(
    tray: TrayCtx,
    capture: Capture,
    s: StatsSnapshot,
    monitors: Result<Vec<MonitorInfo>, CaptureError>,
    windows: Result<Vec<WindowInfo>, CaptureError>,
    r: Vec<MenuNode>,
    list: Seq<AudioDevice>,
    i: int,
)
    requires
        call_ensures(
            TrayCtx::rebuild_menu,
            (&tray, &capture, &s, &monitors, &windows),
            r,
        ),
        list == (if tray.audio_settings.source_type is Microphone {
            tray.capture_devices@
        } else {
            tray.render_devices@
        }),
        0 <= i < list.len(),
    ensures
        r@.len() > 2,
        has_item(
            r@,
            2,
            5 + i,
            "audio_dev_"@ + list[i].id@,
            truncated(list[i].name@, 48),
            tray.audio_settings.device_id matches Some(id) && id@ == list[i].id@,
        ),
        has_item(
            r@,
            2,
            0,
            "audio_toggle"@,
            if tray.audio_settings.enabled {
                "Disable audio"@
            } else {
                "Enable audio"@
            },
            tray.audio_settings.enabled,
        ),
        has_item(
            r@,
            2,
            2,
            "audio_src_SystemAudio"@,
            "System audio (loopback)"@,
            tray.audio_settings.source_type is SystemAudio,
        ),
        has_item(
            r@,
            2,
            3,
            "audio_src_Microphone"@,
            "Microphone"@,
            tray.audio_settings.source_type is Microphone,
        ),
{
    let audio = tray.audio_settings;
    let v = menu_view(r@);
    assert(v.len() == r@.len());
    assert(v[2] == r@[2].view());
    let shown = audio_view(audio, tray.render_devices@, tray.capture_devices@);
    let a = lemma_entry(r@[2], "Audio"@, shown, 5 + i);
    let b = lemma_entry(r@[2], "Audio"@, shown, 0);
    let c = lemma_entry(r@[2], "Audio"@, shown, 2);
    let d = lemma_entry(r@[2], "Audio"@, shown, 3);
    assert(shown[5 + i] == device_entry(audio, list[i]));
    reveal_strlit("audio_src_");
    reveal_strlit("SystemAudio");
    reveal_strlit("Microphone");
    reveal_strlit("audio_src_SystemAudio");
    reveal_strlit("audio_src_Microphone");
    assert("audio_src_"@ + "SystemAudio"@ =~= "audio_src_SystemAudio"@);
    assert("audio_src_"@ + "Microphone"@ =~= "audio_src_Microphone"@);
    lemma_mark(
        truncated(list[i].name@, 48),
        audio.device_id matches Some(id) && id@ == list[i].id@,
    );
    lemma_mark("Disable audio"@, true);
    lemma_mark("Enable audio"@, false);
    lemma_mark("System audio (loopback)"@, audio.source_type is SystemAudio);
    lemma_mark("Microphone"@, audio.source_type is Microphone);
}

/// Whether a text tells a time in milliseconds, cut to tenths.
pub open spec fn tells_millis(text: Seq<char>, what: Seq<char>, micros: u32) -> bool {
    exists|whole: nat, tenths: nat|
        {
            &&& tenths < 10
            &&& whole * 1000 + tenths * 100 <= micros < whole * 1000 + tenths * 100 + 100
            &&& text == what + #[trigger] decimal(whole) + "."@ + #[trigger] decimal(tenths)
                + "ms"@
        }
}

/// Whether entry `k` of part `n` of a menu shows a text.
pub open spec fn has_text(menu: Seq<MenuNode>, n: int, k: int) -> bool {
    menu[n] matches MenuNode::Submenu { entries, .. } && k < entries@.len() && entries@[k] is Text
}

/// What entry `k` of part `n` of a menu shows.
pub open spec fn text_at(menu: Seq<MenuNode>, n: int, k: int) -> Seq<char> {
    menu[n]->entries@[k]->Text_label@
}

/// The menu tells the numbers of the stream: the rate, the times in
/// milliseconds and the size of a frame in whole kilobytes, and how many frames
/// there were where there were any.
pub proof fn the_menu_tells_the_numbers(
    tray: TrayCtx,
    capture: Capture,
    s: StatsSnapshot,
    monitors: Result<Vec<MonitorInfo>, CaptureError>,
    windows: Result<Vec<WindowInfo>, CaptureError>,
    r: Vec<MenuNode>,
)
    requires
        call_ensures(
            TrayCtx::rebuild_menu,
            (&tray, &capture, &s, &monitors, &windows),
            r,
        ),
    ensures
        r@.len() > 0,
        has_text(r@, 0, 0) && text_at(r@, 0, 0) == decimal(s.fps as nat) + " fps"@,
        has_text(r@, 0, 1) && tells_millis(text_at(r@, 0, 1), "capture "@, s.capture_us),
        has_text(r@, 0, 2) && tells_millis(text_at(r@, 0, 2), "encode "@, s.encode_us),
        has_text(r@, 0, 3) && tells_millis(text_at(r@, 0, 3), "write  "@, s.write_us),
        has_text(r@, 0, 4) && exists|k: nat|
            k * 1024 <= s.frame_bytes < k * 1024 + 1024 && text_at(r@, 0, 4) == "frame  "@
                + #[trigger] decimal(k) + " KB"@,
        s.total_frames > 0 ==> has_text(r@, 0, 6) && text_at(r@, 0, 6) == "total "@ + decimal(
            s.total_frames as nat,
        ) + " frames"@,
{
    let v = menu_view(r@);
    assert(v.len() == r@.len());
    assert(v[0] == r@[0].view());
    let shown = stats_view(s);
    let a = lemma_entry(r@[0], "Stats"@, shown, 0);
    let b = lemma_entry(r@[0], "Stats"@, shown, 1);
    let c = lemma_entry(r@[0], "Stats"@, shown, 2);
    let d = lemma_entry(r@[0], "Stats"@, shown, 3);
    let e = lemma_entry(r@[0], "Stats"@, shown, 4);
    if s.total_frames > 0 {
        let f = lemma_entry(r@[0], "Stats"@, shown, 6);
    }
    lemma_millis("capture "@, s.capture_us);
    lemma_millis("encode "@, s.encode_us);
    lemma_millis("write  "@, s.write_us);
    let k = (s.frame_bytes / 1024) as nat;
    assert(text_at(r@, 0, 4) == "frame  "@ + decimal(k) + " KB"@);
}

proof fn lemma_millis(what: Seq<char>, micros: u32)
    ensures
        tells_millis(millis_text(what, micros), what, micros),
{
    let whole = (micros / 1000) as nat;
    let tenths = (micros % 1000 / 100) as nat;
    assert(millis_text(what, micros) == what + decimal(whole) + "."@ + decimal(tenths) + "ms"@);
}

/// A monitor is called by its number; the primary one is told as such, and
/// another by its name where it has one.
pub proof fn monitors_are_called_by_their_number(m: MonitorInfo, r: String)
    requires
        call_ensures(monitor_label, (&m,), r),
    ensures
        m.is_primary ==> r@ == "Monitor "@ + decimal(m.index as nat) + " (primary)"@,
        !m.is_primary && m.name@.len() == 0 ==> r@ == "Monitor "@ + decimal(m.index as nat),
        !m.is_primary && m.name@.len() > 0 ==> r@ == decimal(m.index as nat) + " ("@ + m.name@
            + ")"@,
        r@ == monitor_name(m),
{
}

/// The address that is copied is that of the machine, a colon and the port.
pub proof fn copied_addresses_name_the_port(ip: &str, port: u16, r: String)
    requires
        call_ensures(copy_address, (ip, port), r),
    ensures
        r@.take(ip@.len() as int) == ip@,
        r@[ip@.len() as int] == ':',
        r@.skip(ip@.len() as int + 1) == decimal(port as nat),
{
    reveal_strlit(":");
    assert(r@.take(ip@.len() as int) =~= ip@);
    assert(r@.skip(ip@.len() as int + 1) =~= decimal(port as nat));
}

/// The tooltip tells the rate and the times as they were given.
pub proof fn tooltips_tell_the_rate(fps: u32, capture_ms: &str, encode_ms: &str, r: String)
    requires
        call_ensures(tooltip_text, (fps, capture_ms, encode_ms), r),
    ensures
        r@ == "ffscreencast | "@ + decimal(fps as nat) + " fps | cap "@ + capture_ms@
            + "ms | enc "@ + encode_ms@ + "ms"@,
{
}

/// The last parts of the menu are the entries that it always has.
pub proof fn the_menu_ends_with_lasting_entries(
    tray: TrayCtx,
    capture: Capture,
    s: StatsSnapshot,
    monitors: Result<Vec<MonitorInfo>, CaptureError>,
    windows: Result<Vec<WindowInfo>, CaptureError>,
    r: Vec<MenuNode>,
)
    requires
        call_ensures(
            TrayCtx::rebuild_menu,
            (&tray, &capture, &s, &monitors, &windows),
            r,
        ),
    ensures
        r@.len() == 11,
        r@[6] matches MenuNode::Entry(MenuEntry::Item { id, .. }) && id@ == "copy_ip"@,
        r@[7] matches MenuNode::Entry(MenuEntry::Item { id, .. }) && id@ == "refresh"@,
        r@[8] matches MenuNode::Entry(MenuEntry::Item { id, .. }) && id@ == "check_update"@,
        r@[10] matches MenuNode::Entry(MenuEntry::Item { id, .. }) && id@ == "quit"@,
{
    let v = menu_view(r@);
    assert(v.len() == r@.len());
    assert(v[6] == r@[6].view());
    assert(v[7] == r@[7].view());
    assert(v[8] == r@[8].view());
    assert(v[10] == r@[10].view());
}

} // verus!
