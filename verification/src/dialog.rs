//! The settings dialog that is shown at the start: its controls, what it
//! paints, and what its buttons do.

use vstd::prelude::*;
use vstd::string::*;

use crate::audio::{AudioDevice, AudioSettings, AudioSourceType};
use crate::capture::{MonitorInfo, Rect, Target, WindowInfo};
use crate::text::{
    chars_of, decimal, decimal_reads_back, digit_char, joined, parse_number, parsed_number,
    push_decimal, string_of,
};
use crate::trusted::random_byte;
use crate::wide::{
    before_zero, chars_from_wide, is_plain, lossy_text, plain_text_reads_back, text_from_wide,
    unit_chars, utf16, utf16_reads_back,
};

verus! {

pub const BS_DEFPUSHBUTTON: u32 = 0x0000_0001;

pub const BS_GROUPBOX: u32 = 0x0000_0007;

pub const BS_AUTORADIOBUTTON: u32 = 0x0000_0008;

pub const CBS_DROPDOWNLIST: u32 = 0x0000_0003;

pub const CBS_HASSTRINGS: u32 = 0x0000_0040;

pub const ES_AUTOHSCROLL: u32 = 0x0000_0080;

pub const ES_NUMBER: u32 = 0x0000_2000;

pub const SS_ETCHEDHORZ: u32 = 0x0000_0010;

pub const SS_PATHELLIPSIS: u32 = 0x0000_4000;

pub const WS_GROUP: u32 = 0x0002_0000;

pub const WS_VISIBLE: u32 = 0x1000_0000;

pub const WS_CHILD: u32 = 0x4000_0000;

pub const ID_NONE: i32 = -1;

pub const ID_RADIO_COMBINED: i32 = 1998;

pub const ID_RADIO_WINDOW: i32 = 1999;

pub const ID_COMBO_WINDOW: i32 = 2000;

pub const ID_EDIT_FPS: i32 = 3000;

pub const ID_EDIT_PASSWORD: i32 = 3100;

pub const ID_BTN_COPY: i32 = 4000;

pub const ID_BTN_START: i32 = 4001;

pub const ID_BTN_QUIT: i32 = 4002;

pub const ID_STATIC_URL: i32 = 5000;

pub const ID_RADIO_AUDIO_ENABLE: i32 = 6000;

pub const ID_RADIO_AUDIO_DISABLE: i32 = 6001;

pub const ID_RADIO_AUDIO_SYSTEM: i32 = 6002;

pub const ID_RADIO_AUDIO_MIC: i32 = 6003;

pub const ID_COMBO_AUDIO_DEVICE: i32 = 6004;

/// The notice that another entry of a list was chosen.
pub const CBN_SELCHANGE: u16 = 1;

/// The state of a button that is checked.
pub const BST_CHECKED: u32 = 1;

/// How wide the dialog is inside.
pub const DLG_CX: i32 = 460;

/// How high the dialog is before its controls are laid out.
pub const DLG_CY: i32 = 740;

/// How far the controls are from the edge.
pub const MARGIN: i32 = 16;

/// How high the preview of the monitors is.
pub const PREVIEW_HEIGHT: i32 = 220;

/// How high the picture of a monitor is kept.
pub const THUMB_HEIGHT: u32 = 200;

/// The address that the server listens at.
pub const HOST: &'static str = "0.0.0.0";

/// The port that the server listens at.
pub const PORT: u16 = 8080;

/// The characters of a password that is proposed. None looks like another.
pub const PASSWORD_CHARS: &'static str = "ABCDEFGHJKLMNPQRSTUVWXYZabcdefghjkmnpqrstuvwxyz23456789";

/// How long a password is that is proposed.
pub const PASSWORD_LENGTH: usize = 16;

/// The character that stands for a byte in a proposed password.
pub open spec fn password_char(b: u8) -> char {
    PASSWORD_CHARS@[b as int % PASSWORD_CHARS@.len() as int]
}

/// The password that bytes stand for.
pub fn password_of(bytes: &Vec<u8>) -> (r: String)
    ensures
        r@ == bytes@.map_values(|b: u8| password_char(b)),
{
    proof {
        reveal_strlit("ABCDEFGHJKLMNPQRSTUVWXYZabcdefghjkmnpqrstuvwxyz23456789");
    }
    let chars: Vec<char> = chars_of(PASSWORD_CHARS);
    let ghost whole = bytes@.map_values(|b: u8| password_char(b));
    let mut out: String = String::new();
    let mut i: usize = 0;
    while i < bytes.len()
        invariant
            i <= bytes@.len(),
            chars@ == PASSWORD_CHARS@,
            chars@.len() == 55,
            whole == bytes@.map_values(|b: u8| password_char(b)),
            out@ == whole.take(i as int),
        decreases bytes@.len() - i,
    {
        let index: usize = bytes[i] as usize % chars.len();
        out.push(chars[index]);
        assert(out@ =~= whole.take(i + 1));
        i = i + 1;
    }
    assert(whole.take(i as int) =~= whole);
    out
}

/// Whether a text can be a proposed password.
pub open spec fn is_default_password(s: Seq<char>) -> bool {
    &&& s.len() == PASSWORD_LENGTH
    &&& forall|i: int| 0 <= i < s.len() ==> PASSWORD_CHARS@.contains(#[trigger] s[i])
}

/// A password by chance.
pub fn generate_default_password() -> (r: String)
    ensures
        is_default_password(r@),
{
    let mut bytes: Vec<u8> = Vec::new();
    while bytes.len() < PASSWORD_LENGTH
        invariant
            bytes@.len() <= PASSWORD_LENGTH,
        decreases PASSWORD_LENGTH - bytes@.len(),
    {
        bytes.push(random_byte());
    }
    proof {
        reveal_strlit("ABCDEFGHJKLMNPQRSTUVWXYZabcdefghjkmnpqrstuvwxyz23456789");
    }
    let r: String = password_of(&bytes);
    assert forall|i: int| 0 <= i < r@.len() implies PASSWORD_CHARS@.contains(#[trigger] r@[i]) by {
        let k = bytes@[i] as int % PASSWORD_CHARS@.len() as int;
        assert(PASSWORD_CHARS@[k] == r@[i]);
    }
    r
}

/// The classes of controls.
#[derive(Clone, Copy, Debug, PartialEq, Eq, Structural)]
pub enum ControlClass {
    Button,
    ComboBox,
    Edit,
    Static,
}

impl ControlClass {
    /// The name of a class.
    pub fn name(&self) -> (r: &'static str)
        ensures
            r@ == match self {
                ControlClass::Button => "BUTTON"@,
                ControlClass::ComboBox => "COMBOBOX"@,
                ControlClass::Edit => "EDIT"@,
                ControlClass::Static => "STATIC"@,
            },
    {
        match self {
            ControlClass::Button => "BUTTON",
            ControlClass::ComboBox => "COMBOBOX",
            ControlClass::Edit => "EDIT",
            ControlClass::Static => "STATIC",
        }
    }
}

/// Where something is, and how large.
#[derive(Clone, Copy, Debug, PartialEq, Eq, Structural)]
pub struct Place {
    pub x: i32,
    pub y: i32,
    pub w: i32,
    pub h: i32,
}

/// A step of what the dialog does to its controls.
#[derive(Debug)]
pub enum DialogAction {
    /// Make a control.
    Create { class: ControlClass, text: String, style: u32, place: Place, id: i32 },
    /// Add an entry to a list.
    AddText { id: i32, text: String },
    /// Empty a list.
    Reset { id: i32 },
    /// Choose the first entry of a list.
    SelectFirst { id: i32 },
    /// Let a control be used, or not.
    Enable { id: i32, on: bool },
    /// Check a button, or not.
    Check { id: i32, on: bool },
    /// Put a text into a control.
    SetText { id: i32, text: String },
    /// Paint the preview anew.
    Repaint,
    /// Show a message.
    Complain { title: &'static str, message: &'static str },
    /// Put a text on the clipboard.
    Copy { text: String },
    /// Close the dialog.
    Close,
}

/// A step in plain values.
pub enum ActionView {
    Create(ControlClass, Seq<char>, u32, Place, i32),
    AddText(i32, Seq<char>),
    Reset(i32),
    SelectFirst(i32),
    Enable(i32, bool),
    Check(i32, bool),
    SetText(i32, Seq<char>),
    Repaint,
    Complain(Seq<char>, Seq<char>),
    Copy(Seq<char>),
    Close,
}

impl DialogAction {
    /// The step in plain values.
    pub open spec fn view(&self) -> ActionView {
        match self {
            DialogAction::Create { class, text, style, place, id } => ActionView::Create(
                *class,
                text@,
                *style,
                *place,
                *id,
            ),
            DialogAction::AddText { id, text } => ActionView::AddText(*id, text@),
            DialogAction::Reset { id } => ActionView::Reset(*id),
            DialogAction::SelectFirst { id } => ActionView::SelectFirst(*id),
            DialogAction::Enable { id, on } => ActionView::Enable(*id, *on),
            DialogAction::Check { id, on } => ActionView::Check(*id, *on),
            DialogAction::SetText { id, text } => ActionView::SetText(*id, text@),
            DialogAction::Repaint => ActionView::Repaint,
            DialogAction::Complain { title, message } => ActionView::Complain(title@, message@),
            DialogAction::Copy { text } => ActionView::Copy(text@),
            DialogAction::Close => ActionView::Close,
        }
    }
}

/// Steps in plain values.
pub open spec fn actions_view(actions: Seq<DialogAction>) -> Seq<ActionView> {
    Seq::new(actions.len(), |i: int| actions[i].view())
}

fn put(actions: &mut Vec<DialogAction>, action: DialogAction)
    ensures
        actions_view(final(actions)@) == actions_view(old(actions)@).push(action.view()),
{
    actions.push(action);
    assert(actions_view(actions@) =~= actions_view(old(actions)@).push(action.view()));
}

/// A control: it belongs to the dialog and shows.
pub open spec fn control(
    class: ControlClass,
    text: Seq<char>,
    style: u32,
    place: Place,
    id: i32,
) -> ActionView {
    ActionView::Create(class, text, style | WS_CHILD | WS_VISIBLE, place, id)
}

/// The rectangle from a corner, with a size.
pub open spec fn at(x: int, y: int, w: int, h: int) -> Place {
    Place { x: x as i32, y: y as i32, w: w as i32, h: h as i32 }
}

/// Plans a control.
pub fn create_control(class: ControlClass, text: &str, style: u32, place: Place, id: i32) -> (r:
    DialogAction)
    ensures
        r.view() == control(class, text@, style, place, id),
{
    DialogAction::Create {
        class,
        text: text.to_owned(),
        style: style | WS_CHILD | WS_VISIBLE,
        place,
        id,
    }
}

fn put_control(
    actions: &mut Vec<DialogAction>,
    class: ControlClass,
    text: &str,
    style: u32,
    place: Place,
    id: i32,
)
    ensures
        actions_view(final(actions)@) == actions_view(old(actions)@).push(
            control(class, text@, style, place, id),
        ),
{
    put(actions, create_control(class, text, style, place, id));
}

/// The entries of a list that is filled with texts.
pub open spec fn entries(id: i32, texts: Seq<Seq<char>>) -> Seq<ActionView> {
    texts.map_values(|t: Seq<char>| ActionView::AddText(id, t))
}

/// The names of devices.
pub open spec fn device_names(devices: Seq<AudioDevice>) -> Seq<Seq<char>> {
    devices.map_values(|d: AudioDevice| d.name@)
}

/// The steps that fill the list of devices and choose the first, if there is
/// one.
pub open spec fn devices_listed(devices: Seq<AudioDevice>) -> Seq<ActionView> {
    seq![ActionView::Reset(ID_COMBO_AUDIO_DEVICE)] + entries(
        ID_COMBO_AUDIO_DEVICE,
        device_names(devices),
    ) + if devices.len() > 0 {
        seq![ActionView::SelectFirst(ID_COMBO_AUDIO_DEVICE)]
    } else {
        Seq::empty()
    }
}

fn put_audio_devices(actions: &mut Vec<DialogAction>, devices: &Vec<AudioDevice>)
    ensures
        actions_view(final(actions)@) == actions_view(old(actions)@) + devices_listed(devices@),
{
    let ghost before = actions_view(actions@);
    put(actions, DialogAction::Reset { id: ID_COMBO_AUDIO_DEVICE });
    let ghost texts = entries(ID_COMBO_AUDIO_DEVICE, device_names(devices@));
    let ghost head = before.push(ActionView::Reset(ID_COMBO_AUDIO_DEVICE));
    assert(actions_view(actions@) =~= head + texts.take(0));
    let mut i: usize = 0;
    while i < devices.len()
        invariant
            i <= devices@.len(),
            texts == entries(ID_COMBO_AUDIO_DEVICE, device_names(devices@)),
            actions_view(actions@) == head + texts.take(i as int),
        decreases devices@.len() - i,
    {
        put(
            actions,
            DialogAction::AddText { id: ID_COMBO_AUDIO_DEVICE, text: devices[i].name.clone() },
        );
        assert(actions_view(actions@) =~= head + texts.take(i + 1));
        i = i + 1;
    }
    if devices.len() > 0 {
        put(actions, DialogAction::SelectFirst { id: ID_COMBO_AUDIO_DEVICE });
    }
    assert(actions_view(actions@) =~= before + devices_listed(devices@));
}

/// Fills the list of devices and chooses the first, if there is one.
pub fn populate_audio_devices(devices: &Vec<AudioDevice>) -> (r: Vec<DialogAction>)
    ensures
        actions_view(r@) == devices_listed(devices@),
{
    let mut actions: Vec<DialogAction> = Vec::new();
    put_audio_devices(&mut actions, devices);
    assert(actions_view(actions@) =~= devices_listed(devices@));
    actions
}

/// The title of a window as the list shows it: at most fifty characters, the
/// last three of them dots where it is longer.
pub open spec fn short_title(title: Seq<char>) -> Seq<char> {
    if title.len() > 50 {
        title.take(47) + "..."@
    } else {
        title
    }
}

fn shorten_title(title: &String) -> (r: String)
    ensures
        r@ == short_title(title@),
{
    let chars: Vec<char> = chars_of(title.as_str());
    if chars.len() > 50 {
        let head: String = string_of(&chars, 0, 47);
        assert(head@ =~= title@.take(47));
        joined(head.as_str(), "...")
    } else {
        title.clone()
    }
}

/// The titles of windows as the list shows them.
pub open spec fn short_titles(windows: Seq<WindowInfo>) -> Seq<Seq<char>> {
    windows.map_values(|w: WindowInfo| short_title(w.title@))
}

/// The part of the dialog that chooses what is captured, from `y` down.
pub open spec fn source_controls(y: int, windows: Seq<WindowInfo>) -> Seq<ActionView> {
    seq![
        control(
            ControlClass::Button,
            "Capture Source"@,
            WS_GROUP | BS_GROUPBOX,
            at(16, y, 428, 324),
            ID_NONE,
        ),
        control(
            ControlClass::Button,
            "Combined (all monitors)"@,
            WS_GROUP | BS_AUTORADIOBUTTON,
            at(28, y + 252, 404, 22),
            ID_RADIO_COMBINED,
        ),
        control(
            ControlClass::Button,
            "Window:"@,
            WS_GROUP | BS_AUTORADIOBUTTON,
            at(28, y + 280, 72, 22),
            ID_RADIO_WINDOW,
        ),
        control(
            ControlClass::ComboBox,
            ""@,
            CBS_DROPDOWNLIST | CBS_HASSTRINGS,
            at(104, y + 278, 328, 200),
            ID_COMBO_WINDOW,
        ),
    ] + entries(ID_COMBO_WINDOW, short_titles(windows)) + seq![
        ActionView::SelectFirst(ID_COMBO_WINDOW),
        ActionView::Enable(ID_COMBO_WINDOW, false),
    ]
}

fn put_source_controls(actions: &mut Vec<DialogAction>, top: i32, windows: &Vec<WindowInfo>)
    requires
        0 <= top <= 1000,
    ensures
        actions_view(final(actions)@) == actions_view(old(actions)@) + source_controls(
            top as int,
            windows@,
        ),
{
    let ghost before = actions_view(actions@);
    let content_w: i32 = DLG_CX - 2 * MARGIN;
    let group_h: i32 = 24 + PREVIEW_HEIGHT + 8 + 28 + 36 + 8;
    put_control(
        actions,
        ControlClass::Button,
        "Capture Source",
        WS_GROUP | BS_GROUPBOX,
        Place { x: MARGIN, y: top, w: content_w, h: group_h },
        ID_NONE,
    );
    let y: i32 = top + 24 + PREVIEW_HEIGHT + 8;
    put_control(
        actions,
        ControlClass::Button,
        "Combined (all monitors)",
        WS_GROUP | BS_AUTORADIOBUTTON,
        Place { x: MARGIN + 12, y, w: content_w - 24, h: 22 },
        ID_RADIO_COMBINED,
    );
    let y: i32 = y + 28;
    put_control(
        actions,
        ControlClass::Button,
        "Window:",
        WS_GROUP | BS_AUTORADIOBUTTON,
        Place { x: MARGIN + 12, y, w: 72, h: 22 },
        ID_RADIO_WINDOW,
    );
    put_control(
        actions,
        ControlClass::ComboBox,
        "",
        CBS_DROPDOWNLIST | CBS_HASSTRINGS,
        Place { x: MARGIN + 88, y: y - 2, w: content_w - 100, h: 200 },
        ID_COMBO_WINDOW,
    );
    let ghost head = actions_view(actions@);
    let ghost texts = entries(ID_COMBO_WINDOW, short_titles(windows@));
    assert(head =~= head + texts.take(0));
    let mut i: usize = 0;
    while i < windows.len()
        invariant
            i <= windows@.len(),
            texts == entries(ID_COMBO_WINDOW, short_titles(windows@)),
            actions_view(actions@) == head + texts.take(i as int),
        decreases windows@.len() - i,
    {
        put(
            actions,
            DialogAction::AddText { id: ID_COMBO_WINDOW, text: shorten_title(&windows[i].title) },
        );
        assert(actions_view(actions@) =~= head + texts.take(i + 1));
        i = i + 1;
    }
    assert(texts.take(i as int) =~= texts);
    put(actions, DialogAction::SelectFirst { id: ID_COMBO_WINDOW });
    put(actions, DialogAction::Enable { id: ID_COMBO_WINDOW, on: false });
    assert(actions_view(actions@) =~= before + source_controls(top as int, windows@));
}

/// The part that sets how many frames a second are wanted, from `y` down.
pub open spec fn rate_controls(y: int) -> Seq<ActionView> {
    seq![
        control(ControlClass::Button, "Frame Rate"@, BS_GROUPBOX, at(16, y, 428, 52), ID_NONE),
        control(
            ControlClass::Edit,
            "60"@,
            ES_NUMBER | ES_AUTOHSCROLL,
            at(28, y + 23, 52, 24),
            ID_EDIT_FPS,
        ),
        control(
            ControlClass::Static,
            "fps  (1 \u{2013} 60)"@,
            0,
            at(92, y + 26, 100, 20),
            ID_NONE,
        ),
    ]
}

fn put_rate_controls(actions: &mut Vec<DialogAction>, y: i32)
    requires
        0 <= y <= 1000,
    ensures
        actions_view(final(actions)@) == actions_view(old(actions)@) + rate_controls(y as int),
{
    let content_w: i32 = DLG_CX - 2 * MARGIN;
    put_control(
        actions,
        ControlClass::Button,
        "Frame Rate",
        BS_GROUPBOX,
        Place { x: MARGIN, y, w: content_w, h: 52 },
        ID_NONE,
    );
    put_control(
        actions,
        ControlClass::Edit,
        "60",
        ES_NUMBER | ES_AUTOHSCROLL,
        Place { x: MARGIN + 12, y: y + 22 + 1, w: 52, h: 24 },
        ID_EDIT_FPS,
    );
    put_control(
        actions,
        ControlClass::Static,
        "fps  (1 \u{2013} 60)",
        0,
        Place { x: MARGIN + 76, y: y + 22 + 4, w: 100, h: 20 },
        ID_NONE,
    );
    assert(actions_view(actions@) =~= actions_view(old(actions)@) + rate_controls(y as int));
}

/// The part that sets the password, from `y` down.
pub open spec fn password_controls(y: int, password: Seq<char>) -> Seq<ActionView> {
    seq![
        control(ControlClass::Button, "Viewer Password"@, BS_GROUPBOX, at(16, y, 428, 52), ID_NONE),
        control(ControlClass::Edit, ""@, ES_AUTOHSCROLL, at(28, y + 23, 404, 24), ID_EDIT_PASSWORD),
        ActionView::SetText(ID_EDIT_PASSWORD, password),
    ]
}

fn put_password_controls(actions: &mut Vec<DialogAction>, y: i32, password: &str)
    requires
        0 <= y <= 1000,
    ensures
        actions_view(final(actions)@) == actions_view(old(actions)@) + password_controls(
            y as int,
            password@,
        ),
{
    let content_w: i32 = DLG_CX - 2 * MARGIN;
    put_control(
        actions,
        ControlClass::Button,
        "Viewer Password",
        BS_GROUPBOX,
        Place { x: MARGIN, y, w: content_w, h: 52 },
        ID_NONE,
    );
    put_control(
        actions,
        ControlClass::Edit,
        "",
        ES_AUTOHSCROLL,
        Place { x: MARGIN + 12, y: y + 22 + 1, w: content_w - 24, h: 24 },
        ID_EDIT_PASSWORD,
    );
    put(actions, DialogAction::SetText { id: ID_EDIT_PASSWORD, text: password.to_owned() });
    assert(actions_view(actions@) =~= actions_view(old(actions)@) + password_controls(
        y as int,
        password@,
    ));
}

/// The part that sets the sound, from `y` down.
pub open spec fn sound_controls(y: int, devices: Seq<AudioDevice>) -> Seq<ActionView> {
    seq![
        control(ControlClass::Button, "Audio"@, BS_GROUPBOX, at(16, y, 428, 130), ID_NONE),
        control(
            ControlClass::Button,
            "Enable audio"@,
            WS_GROUP | BS_AUTORADIOBUTTON,
            at(28, y + 22, 404, 22),
            ID_RADIO_AUDIO_ENABLE,
        ),
        ActionView::Check(ID_RADIO_AUDIO_ENABLE, true),
        control(
            ControlClass::Button,
            "Disable audio"@,
            BS_AUTORADIOBUTTON,
            at(28, y + 46, 404, 22),
            ID_RADIO_AUDIO_DISABLE,
        ),
        control(
            ControlClass::Button,
            "System audio (loopback)"@,
            WS_GROUP | BS_AUTORADIOBUTTON,
            at(28, y + 72, 180, 22),
            ID_RADIO_AUDIO_SYSTEM,
        ),
        ActionView::Check(ID_RADIO_AUDIO_SYSTEM, true),
        control(
            ControlClass::Button,
            "Microphone"@,
            BS_AUTORADIOBUTTON,
            at(28, y + 96, 180, 22),
            ID_RADIO_AUDIO_MIC,
        ),
        control(ControlClass::Static, "Device:"@, 0, at(28, y + 125, 52, 20), ID_NONE),
        control(
            ControlClass::ComboBox,
            ""@,
            CBS_DROPDOWNLIST | CBS_HASSTRINGS,
            at(84, y + 120, 348, 200),
            ID_COMBO_AUDIO_DEVICE,
        ),
    ] + devices_listed(devices)
}

fn put_sound_controls(actions: &mut Vec<DialogAction>, top: i32, devices: &Vec<AudioDevice>)
    requires
        0 <= top <= 1000,
    ensures
        actions_view(final(actions)@) == actions_view(old(actions)@) + sound_controls(
            top as int,
            devices@,
        ),
{
    let content_w: i32 = DLG_CX - 2 * MARGIN;
    put_control(
        actions,
        ControlClass::Button,
        "Audio",
        BS_GROUPBOX,
        Place { x: MARGIN, y: top, w: content_w, h: 130 },
        ID_NONE,
    );
    let y: i32 = top + 22;
    put_control(
        actions,
        ControlClass::Button,
        "Enable audio",
        WS_GROUP | BS_AUTORADIOBUTTON,
        Place { x: MARGIN + 12, y, w: content_w - 24, h: 22 },
        ID_RADIO_AUDIO_ENABLE,
    );
    put(actions, DialogAction::Check { id: ID_RADIO_AUDIO_ENABLE, on: true });
    let y: i32 = y + 24;
    put_control(
        actions,
        ControlClass::Button,
        "Disable audio",
        BS_AUTORADIOBUTTON,
        Place { x: MARGIN + 12, y, w: content_w - 24, h: 22 },
        ID_RADIO_AUDIO_DISABLE,
    );
    let y: i32 = y + 26;
    put_control(
        actions,
        ControlClass::Button,
        "System audio (loopback)",
        WS_GROUP | BS_AUTORADIOBUTTON,
        Place { x: MARGIN + 12, y, w: 180, h: 22 },
        ID_RADIO_AUDIO_SYSTEM,
    );
    put(actions, DialogAction::Check { id: ID_RADIO_AUDIO_SYSTEM, on: true });
    let y: i32 = y + 24;
    put_control(
        actions,
        ControlClass::Button,
        "Microphone",
        BS_AUTORADIOBUTTON,
        Place { x: MARGIN + 12, y, w: 180, h: 22 },
        ID_RADIO_AUDIO_MIC,
    );
    let y: i32 = y + 26;
    put_control(
        actions,
        ControlClass::Static,
        "Device:",
        0,
        Place { x: MARGIN + 12, y: y + 3, w: 52, h: 20 },
        ID_NONE,
    );
    put_control(
        actions,
        ControlClass::ComboBox,
        "",
        CBS_DROPDOWNLIST | CBS_HASSTRINGS,
        Place { x: MARGIN + 68, y: y - 2, w: content_w - 80, h: 200 },
        ID_COMBO_AUDIO_DEVICE,
    );
    put_audio_devices(actions, devices);
    assert(actions_view(actions@) =~= actions_view(old(actions)@) + sound_controls(
        top as int,
        devices@,
    ));
}

/// The part that shows where the viewers go, from `y` down.
pub open spec fn url_controls(y: int, url: Seq<char>) -> Seq<ActionView> {
    seq![
        control(ControlClass::Static, "Viewer URL:"@, 0, at(16, y + 3, 80, 20), ID_NONE),
        control(ControlClass::Static, url, SS_PATHELLIPSIS, at(100, y + 3, 260, 20), ID_STATIC_URL),
        control(ControlClass::Button, "Copy"@, 0, at(372, y - 1, 72, 28), ID_BTN_COPY),
        control(ControlClass::Static, ""@, SS_ETCHEDHORZ, at(16, y + 40, 428, 2), ID_NONE),
        control(ControlClass::Button, "Quit"@, 0, at(16, y + 58, 90, 34), ID_BTN_QUIT),
        control(
            ControlClass::Button,
            "Start"@,
            BS_DEFPUSHBUTTON,
            at(354, y + 58, 90, 34),
            ID_BTN_START,
        ),
    ]
}

fn put_url_controls(actions: &mut Vec<DialogAction>, top: i32, url: &str)
    requires
        1 <= top <= 1000,
    ensures
        actions_view(final(actions)@) == actions_view(old(actions)@) + url_controls(
            top as int,
            url@,
        ),
{
    let content_w: i32 = DLG_CX - 2 * MARGIN;
    put_control(
        actions,
        ControlClass::Static,
        "Viewer URL:",
        0,
        Place { x: MARGIN, y: top + 3, w: 80, h: 20 },
        ID_NONE,
    );
    put_control(
        actions,
        ControlClass::Static,
        url,
        SS_PATHELLIPSIS,
        Place { x: MARGIN + 84, y: top + 3, w: 260, h: 20 },
        ID_STATIC_URL,
    );
    put_control(
        actions,
        ControlClass::Button,
        "Copy",
        0,
        Place { x: DLG_CX - MARGIN - 72, y: top - 1, w: 72, h: 28 },
        ID_BTN_COPY,
    );
    let y: i32 = top + 40;
    put_control(
        actions,
        ControlClass::Static,
        "",
        SS_ETCHEDHORZ,
        Place { x: MARGIN, y, w: content_w, h: 2 },
        ID_NONE,
    );
    let y: i32 = y + 2 + MARGIN;
    let btn_w: i32 = 90;
    let btn_h: i32 = 34;
    put_control(
        actions,
        ControlClass::Button,
        "Quit",
        0,
        Place { x: MARGIN, y, w: btn_w, h: btn_h },
        ID_BTN_QUIT,
    );
    put_control(
        actions,
        ControlClass::Button,
        "Start",
        BS_DEFPUSHBUTTON,
        Place { x: DLG_CX - MARGIN - btn_w, y, w: btn_w, h: btn_h },
        ID_BTN_START,
    );
    assert(actions_view(actions@) =~= actions_view(old(actions)@) + url_controls(top as int, url@));
}

/// The address that viewers go to.
pub open spec fn viewer_url(ip: Seq<char>) -> Seq<char> {
    "http://"@ + ip + ":8080"@
}

/// How the dialog is laid out.
#[derive(Debug)]
pub struct DialogLayout {
    pub actions: Vec<DialogAction>,
    pub preview: Rect,
    pub width: i32,
    pub height: i32,
}

/// The controls of the dialog.
pub open spec fn dialog_controls(
    windows: Seq<WindowInfo>,
    devices: Seq<AudioDevice>,
    password: Seq<char>,
    ip: Seq<char>,
) -> Seq<ActionView> {
    source_controls(16, windows) + rate_controls(340) + password_controls(422, password)
        + sound_controls(504, devices) + url_controls(616, viewer_url(ip))
}

/// Lays out the dialog.
pub fn lay_out(
    windows: &Vec<WindowInfo>,
    render_devices: &Vec<AudioDevice>,
    password: &str,
    ip: &str,
) -> (r: DialogLayout)
    ensures
        actions_view(r.actions@) == dialog_controls(
            windows@,
            render_devices@,
            password@,
            ip@,
        ),
        r.preview == (Rect { left: 24, top: 40, right: 436, bottom: 260 }),
        r.width == 460,
        r.height == 724,
{
    let mut actions: Vec<DialogAction> = Vec::new();
    assert(actions_view(actions@) =~= Seq::<ActionView>::empty());
    let content_w: i32 = DLG_CX - 2 * MARGIN;
    let y: i32 = MARGIN;
    put_source_controls(&mut actions, y, windows);
    let y: i32 = y + 24;
    let preview: Rect = Rect {
        left: MARGIN + 8,
        top: y,
        right: MARGIN + 8 + content_w - 16,
        bottom: y + PREVIEW_HEIGHT,
    };
    let y: i32 = y + PREVIEW_HEIGHT + 8 + 28 + 36 + 8;
    put_rate_controls(&mut actions, y);
    let y: i32 = y + 22 + 52 + 8;
    put_password_controls(&mut actions, y, password);
    let y: i32 = y + 22 + 52 + 8;
    put_sound_controls(&mut actions, y, render_devices);
    let audio_group_h: i32 = 130;
    let y: i32 = y + 22 + 24 + 26 + 24 + 26;
    let y: i32 = y + audio_group_h - 22 - 24 - 26 - 24 - 26 - 26 + 8;
    let mut url: String = joined("http://", ip);
    url.append(":8080");
    put_url_controls(&mut actions, y, url.as_str());
    let y: i32 = y + 40 + 2 + MARGIN + 34 + MARGIN;
    assert(actions_view(actions@) =~= dialog_controls(
        windows@,
        render_devices@,
        password@,
        ip@,
    ));
    DialogLayout { actions, preview, width: DLG_CX, height: y }
}

/// What is to be captured, as the dialog has it chosen.
#[derive(Clone, Copy, Debug, PartialEq, Eq, Structural)]
pub enum CaptureMode {
    Monitor(usize),
    Combined,
    Window,
}

/// What the user has settled on.
pub struct SettingsResult {
    pub target: Target,
    pub fps: u32,
    pub host: String,
    pub port: u16,
    pub password: String,
    pub audio: AudioSettings,
}

/// The dialog while it is open.
pub struct DialogState {
    pub monitors: Vec<MonitorInfo>,
    pub windows: Vec<WindowInfo>,
    pub preview: Rect,
    pub capture_mode: CaptureMode,
    pub render_devices: Vec<AudioDevice>,
    pub capture_devices: Vec<AudioDevice>,
    pub result: Option<SettingsResult>,
}

/// Whether `n` is where the first primary monitor stands, or zero where there
/// is none.
pub open spec fn is_default_monitor(monitors: Seq<MonitorInfo>, n: int) -> bool {
    ||| 0 <= n < monitors.len() && monitors[n].is_primary && forall|j: int|
        0 <= j < n ==> !(#[trigger] monitors[j]).is_primary
    ||| n == 0 && forall|j: int| 0 <= j < monitors.len() ==> !(#[trigger] monitors[j]).is_primary
}

impl DialogState {
    /// A dialog that has just been opened.
    pub fn new(
        monitors: Vec<MonitorInfo>,
        windows: Vec<WindowInfo>,
        render_devices: Vec<AudioDevice>,
        capture_devices: Vec<AudioDevice>,
    ) -> (r: Self)
        ensures
            r.monitors == monitors,
            r.windows == windows,
            r.preview == (Rect { left: 0, top: 0, right: 0, bottom: 0 }),
            r.render_devices == render_devices,
            r.capture_devices == capture_devices,
            r.result is None,
            r.capture_mode matches CaptureMode::Monitor(n) && is_default_monitor(
                monitors@,
                n as int,
            ),
    {
        let mut first: usize = 0;
        while first < monitors.len() && !monitors[first].is_primary
            invariant
                first <= monitors@.len(),
                forall|j: int| 0 <= j < first ==> !(#[trigger] monitors@[j]).is_primary,
            decreases monitors@.len() - first,
        {
            first = first + 1;
        }
        let chosen: usize = if first < monitors.len() {
            first
        } else {
            0
        };
        DialogState {
            monitors,
            windows,
            preview: Rect { left: 0, top: 0, right: 0, bottom: 0 },
            capture_mode: CaptureMode::Monitor(chosen),
            render_devices,
            capture_devices,
            result: None,
        }
    }

    /// Lays out the dialog and keeps where the preview is.
    pub fn create(&mut self, password: &str, ip: &str) -> (r: DialogLayout)
        ensures
            actions_view(r.actions@) == dialog_controls(
                old(self).windows@,
                old(self).render_devices@,
                password@,
                ip@,
            ),
            r.preview == (Rect { left: 24, top: 40, right: 436, bottom: 260 }),
            r.width == 460,
            r.height == 724,
            *final(self) == (DialogState { preview: r.preview, ..*old(self) }),
    {
        let layout: DialogLayout = lay_out(&self.windows, &self.render_devices, password, ip);
        self.preview = layout.preview;
        layout
    }
}

/// Where a window of a size begins so that it is in the middle of a screen.
pub open spec fn middle(screen: int, size: int) -> int {
    if screen >= size {
        (screen - size) / 2
    } else {
        -((size - screen) / 2)
    }
}

/// Where a window of a size begins so that it is in the middle of a screen.
pub fn centered(screen: i32, size: i32) -> (r: i32)
    requires
        i32::MIN < screen - size <= i32::MAX,
    ensures
        r == middle(screen as int, size as int),
{
    let gap: i32 = screen - size;
    if gap >= 0 {
        gap / 2
    } else {
        -((-gap) / 2)
    }
}

/// A colour: one of the system's, or one by its channels.
#[derive(Clone, Copy, Debug, PartialEq, Eq, Structural)]
pub enum PaintColor {
    System(i32),
    Rgb(u32),
}

pub const COLOR_WINDOW: i32 = 5;

pub const COLOR_WINDOWTEXT: i32 = 8;

pub const COLOR_HIGHLIGHT: i32 = 13;

pub const COLOR_BTNFACE: i32 = 15;

pub const COLOR_BTNTEXT: i32 = 18;

/// A step of painting.
#[derive(Debug)]
pub enum PaintAction {
    /// Fill a rectangle.
    Fill { rect: Rect, color: PaintColor },
    /// Draw the edge of a rectangle.
    Frame { rect: Rect, color: PaintColor },
    /// Draw the picture of a monitor.
    Picture { index: usize, place: Place },
    /// Write a text in the middle of a rectangle.
    Text { text: String, rect: Rect, color: PaintColor },
}

/// A step of painting in plain values.
pub enum PaintView {
    Fill(Rect, PaintColor),
    Frame(Rect, PaintColor),
    Picture(usize, Place),
    Text(Seq<char>, Rect, PaintColor),
}

impl PaintAction {
    /// The step in plain values.
    pub open spec fn view(&self) -> PaintView {
        match self {
            PaintAction::Fill { rect, color } => PaintView::Fill(*rect, *color),
            PaintAction::Frame { rect, color } => PaintView::Frame(*rect, *color),
            PaintAction::Picture { index, place } => PaintView::Picture(*index, *place),
            PaintAction::Text { text, rect, color } => PaintView::Text(text@, *rect, *color),
        }
    }
}

/// Steps of painting in plain values.
pub open spec fn paints_view(paints: Seq<PaintAction>) -> Seq<PaintView> {
    Seq::new(paints.len(), |i: int| paints[i].view())
}

fn put_paint(paints: &mut Vec<PaintAction>, paint: PaintAction)
    ensures
        paints_view(final(paints)@) == paints_view(old(paints)@).push(paint.view()),
{
    paints.push(paint);
    assert(paints_view(paints@) =~= paints_view(old(paints)@).push(paint.view()));
}

/// How high the bar with the name of a monitor is.
pub const BAR_HEIGHT: i32 = 22;

/// Where a monitor is drawn: its place in the preview, shifted to where the
/// preview is.
pub open spec fn drawn_at(preview: Rect, place: Place) -> (int, int, int, int) {
    let x = preview.left + place.x;
    let y = preview.top + place.y;
    (x, y, x + place.w, y + place.h)
}

/// Whether all that is drawn of a monitor can be given in numbers.
pub open spec fn is_drawable(preview: Rect, place: Place) -> bool {
    let (x0, y0, x1, y1) = drawn_at(preview, place);
    &&& i32::MIN <= x0 <= i32::MAX - 2
    &&& i32::MIN <= y0 <= i32::MAX - 2
    &&& i32::MIN + 2 <= x1 <= i32::MAX
    &&& i32::MIN + BAR_HEIGHT <= y1 <= i32::MAX
}

/// A rectangle from its edges.
pub open spec fn edges(left: int, top: int, right: int, bottom: int) -> Rect {
    Rect { left: left as i32, top: top as i32, right: right as i32, bottom: bottom as i32 }
}

/// Whether a monitor belongs to what is chosen.
pub open spec fn is_chosen(mode: CaptureMode, i: int) -> bool {
    match mode {
        CaptureMode::Monitor(n) => n == i,
        CaptureMode::Combined => true,
        CaptureMode::Window => false,
    }
}

/// What is written under a monitor.
pub open spec fn monitor_caption(m: MonitorInfo) -> Seq<char> {
    "Monitor "@ + decimal(m.index as nat) + " \u{2013} "@ + decimal(m.width as nat)
        + " \u{00D7} "@ + decimal(m.height as nat)
}

fn caption_of(m: &MonitorInfo) -> (r: String)
    ensures
        r@ == monitor_caption(*m),
{
    let mut s: String = "Monitor ".to_owned();
    push_decimal(&mut s, m.index as u64);
    s.append(" \u{2013} ");
    push_decimal(&mut s, m.width as u64);
    s.append(" \u{00D7} ");
    push_decimal(&mut s, m.height as u64);
    s
}

/// How a monitor is painted: its picture, or a plain rectangle where there is
/// none; its edge, twice where it is chosen; and a bar with its name.
pub open spec fn monitor_painted(
    preview: Rect,
    place: Place,
    pictured: bool,
    chosen: bool,
    i: int,
    m: MonitorInfo,
) -> Seq<PaintView> {
    let (x0, y0, x1, y1) = drawn_at(preview, place);
    let color = PaintColor::System(
        if chosen {
            COLOR_HIGHLIGHT
        } else {
            COLOR_BTNFACE
        },
    );
    let bar = edges(x0, y1 - BAR_HEIGHT, x1, y1);
    seq![
        if pictured {
            PaintView::Picture(
                i as usize,
                Place { x: x0 as i32, y: y0 as i32, w: place.w, h: place.h },
            )
        } else {
            PaintView::Fill(edges(x0, y0, x1, y1), PaintColor::System(COLOR_BTNFACE))
        },
        PaintView::Frame(edges(x0, y0, x1, y1), color),
    ] + (if chosen {
        seq![PaintView::Frame(edges(x0 + 2, y0 + 2, x1 - 2, y1 - 2), color)]
    } else {
        Seq::empty()
    }) + seq![
        PaintView::Fill(bar, PaintColor::Rgb(0)),
        PaintView::Text(monitor_caption(m), bar, PaintColor::Rgb(0x00FF_FFFF)),
    ]
}

/// Whether monitor `i` has a picture.
pub open spec fn has_picture(pictures: Seq<bool>, i: int) -> bool {
    i < pictures.len() && pictures[i]
}

/// How the first `n` monitors are painted.
pub open spec fn monitors_painted(
    state: DialogState,
    places: Seq<Place>,
    pictures: Seq<bool>,
    n: int,
) -> Seq<PaintView>
    decreases n,
{
    if n <= 0 {
        Seq::empty()
    } else {
        monitors_painted(state, places, pictures, n - 1) + monitor_painted(
            state.preview,
            places[n - 1],
            has_picture(pictures, n - 1),
            is_chosen(state.capture_mode, n - 1),
            n - 1,
            state.monitors@[n - 1],
        )
    }
}

/// How the preview is painted.
pub open spec fn preview_painted(
    state: DialogState,
    places: Seq<Place>,
    pictures: Seq<bool>,
) -> Seq<PaintView> {
    seq![PaintView::Fill(state.preview, PaintColor::System(COLOR_WINDOW))] + if places.len() == 0 {
        seq![
            PaintView::Text(
                "No monitors detected"@,
                state.preview,
                PaintColor::System(COLOR_BTNTEXT),
            ),
        ]
    } else {
        monitors_painted(state, places, pictures, places.len() as int)
    }
}

fn put_monitor(
    paints: &mut Vec<PaintAction>,
    preview: Rect,
    place: Place,
    pictured: bool,
    chosen: bool,
    i: usize,
    m: &MonitorInfo,
)
    requires
        is_drawable(preview, place),
    ensures
        paints_view(final(paints)@) == paints_view(old(paints)@) + monitor_painted(
            preview,
            place,
            pictured,
            chosen,
            i as int,
            *m,
        ),
{
    let ax: i32 = preview.left + place.x;
    let ay: i32 = preview.top + place.y;
    let bx: i32 = ax + place.w;
    let by: i32 = ay + place.h;
    let whole: Rect = Rect { left: ax, top: ay, right: bx, bottom: by };
    if pictured {
        put_paint(
            paints,
            PaintAction::Picture { index: i, place: Place { x: ax, y: ay, w: place.w, h: place.h } },
        );
    } else {
        put_paint(
            paints,
            PaintAction::Fill { rect: whole, color: PaintColor::System(COLOR_BTNFACE) },
        );
    }
    let color: PaintColor = if chosen {
        PaintColor::System(COLOR_HIGHLIGHT)
    } else {
        PaintColor::System(COLOR_BTNFACE)
    };
    put_paint(paints, PaintAction::Frame { rect: whole, color });
    if chosen {
        let inner: Rect = Rect { left: ax + 2, top: ay + 2, right: bx - 2, bottom: by - 2 };
        put_paint(paints, PaintAction::Frame { rect: inner, color });
    }
    let bar: Rect = Rect { left: ax, top: by - BAR_HEIGHT, right: bx, bottom: by };
    put_paint(paints, PaintAction::Fill { rect: bar, color: PaintColor::Rgb(0) });
    put_paint(
        paints,
        PaintAction::Text { text: caption_of(m), rect: bar, color: PaintColor::Rgb(0x00FF_FFFF) },
    );
    assert(paints_view(paints@) =~= paints_view(old(paints)@) + monitor_painted(
        preview,
        place,
        pictured,
        chosen,
        i as int,
        *m,
    ));
}

impl DialogState {
    /// Paints the preview, with each monitor at its place.
    pub fn paint(&self, places: &Vec<Place>, pictures: &Vec<bool>) -> (r: Vec<PaintAction>)
        requires
            places@.len() <= self.monitors@.len(),
            forall|i: int|
                0 <= i < places@.len() ==> is_drawable(self.preview, #[trigger] places@[i]),
        ensures
            paints_view(r@) == preview_painted(*self, places@, pictures@),
    {
        let mut paints: Vec<PaintAction> = Vec::new();
        put_paint(
            &mut paints,
            PaintAction::Fill { rect: self.preview, color: PaintColor::System(COLOR_WINDOW) },
        );
        if places.len() == 0 {
            put_paint(
                &mut paints,
                PaintAction::Text {
                    text: "No monitors detected".to_owned(),
                    rect: self.preview,
                    color: PaintColor::System(COLOR_BTNTEXT),
                },
            );
            assert(paints_view(paints@) =~= preview_painted(*self, places@, pictures@));
            return paints;
        }
        let ghost head = paints_view(paints@);
        let mut i: usize = 0;
        assert(head =~= head + monitors_painted(*self, places@, pictures@, 0));
        while i < places.len()
            invariant
                i <= places@.len() <= self.monitors@.len(),
                forall|i: int|
                    0 <= i < places@.len() ==> is_drawable(self.preview, #[trigger] places@[i]),
                paints_view(paints@) == head + monitors_painted(
                    *self,
                    places@,
                    pictures@,
                    i as int,
                ),
            decreases places@.len() - i,
        {
            let pictured: bool = i < pictures.len() && pictures[i];
            let chosen: bool = match self.capture_mode {
                CaptureMode::Monitor(n) => n == i,
                CaptureMode::Combined => true,
                CaptureMode::Window => false,
            };
            put_monitor(
                &mut paints,
                self.preview,
                places[i],
                pictured,
                chosen,
                i,
                &self.monitors[i],
            );
            assert(paints_view(paints@) =~= head + monitors_painted(
                *self,
                places@,
                pictures@,
                i + 1,
            ));
            i = i + 1;
        }
        assert(paints_view(paints@) =~= preview_painted(*self, places@, pictures@));
        paints
    }
}

/// Whether the edges of a monitor can be given in numbers.
pub open spec fn has_edges(m: MonitorInfo) -> bool {
    &&& m.width <= i32::MAX
    &&& m.height <= i32::MAX
    &&& m.x + m.width <= i32::MAX
    &&& m.y + m.height <= i32::MAX
}

/// Whether a monitor lies within edges.
pub open spec fn lies_within(m: MonitorInfo, left: int, top: int, right: int, bottom: int) -> bool {
    left <= m.x && top <= m.y && m.x + m.width <= right && m.y + m.height <= bottom
}

/// Whether these are the edges of all monitors together: every monitor lies
/// within, and each edge is that of some monitor.
pub open spec fn are_edges(
    monitors: Seq<MonitorInfo>,
    left: int,
    top: int,
    right: int,
    bottom: int,
) -> bool {
    &&& forall|i: int|
        0 <= i < monitors.len() ==> lies_within(#[trigger] monitors[i], left, top, right, bottom)
    &&& exists|i: int| 0 <= i < monitors.len() && (#[trigger] monitors[i]).x == left
    &&& exists|i: int| 0 <= i < monitors.len() && (#[trigger] monitors[i]).y == top
    &&& exists|i: int|
        0 <= i < monitors.len() && (#[trigger] monitors[i]).x + monitors[i].width == right
    &&& exists|i: int|
        0 <= i < monitors.len() && (#[trigger] monitors[i]).y + monitors[i].height == bottom
}

/// The rectangle that all monitors together take, unless there are none.
pub fn desktop_bounds(monitors: &Vec<MonitorInfo>) -> (r: Option<Rect>)
    requires
        forall|i: int| 0 <= i < monitors@.len() ==> has_edges(#[trigger] monitors@[i]),
    ensures
        match r {
            Some(b) => monitors@.len() > 0 && are_edges(
                monitors@,
                b.left as int,
                b.top as int,
                b.right as int,
                b.bottom as int,
            ),
            None => monitors@.len() == 0,
        },
{
    if monitors.len() == 0 {
        return None;
    }
    let mut left: i32 = monitors[0].x;
    let mut top: i32 = monitors[0].y;
    let mut right: i32 = monitors[0].x + monitors[0].width as i32;
    let mut bottom: i32 = monitors[0].y + monitors[0].height as i32;
    let mut i: usize = 1;
    let ghost first = monitors@.take(1);
    assert(first[0] == monitors@[0]);
    while i < monitors.len()
        invariant
            1 <= i <= monitors@.len(),
            forall|i: int| 0 <= i < monitors@.len() ==> has_edges(#[trigger] monitors@[i]),
            are_edges(
                monitors@.take(i as int),
                left as int,
                top as int,
                right as int,
                bottom as int,
            ),
        decreases monitors@.len() - i,
    {
        let ghost some = monitors@.take(i as int);
        let ghost more = monitors@.take(i + 1);
        let ghost (l, t, r, b) = (left, top, right, bottom);
        let m: &MonitorInfo = &monitors[i];
        let x: i32 = m.x + m.width as i32;
        let y: i32 = m.y + m.height as i32;
        if m.x < left {
            left = m.x;
        }
        if m.y < top {
            top = m.y;
        }
        if x > right {
            right = x;
        }
        if y > bottom {
            bottom = y;
        }
        proof {
            assert(more[i as int] == *m);
            assert forall|j: int| 0 <= j < more.len() implies lies_within(
                #[trigger] more[j],
                left as int,
                top as int,
                right as int,
                bottom as int,
            ) by {
                if j < i {
                    assert(some[j] == more[j]);
                }
            }
            let p = choose|j: int| 0 <= j < some.len() && (#[trigger] some[j]).x == l;
            assert(more[p] == some[p]);
            let p = choose|j: int| 0 <= j < some.len() && (#[trigger] some[j]).y == t;
            assert(more[p] == some[p]);
            let p = choose|j: int|
                0 <= j < some.len() && (#[trigger] some[j]).x + some[j].width == r;
            assert(more[p] == some[p]);
            let p = choose|j: int|
                0 <= j < some.len() && (#[trigger] some[j]).y + some[j].height == b;
            assert(more[p] == some[p]);
        }
        i = i + 1;
    }
    assert(monitors@.take(i as int) =~= monitors@);
    Some(Rect { left, top, right, bottom })
}

/// A number of sixteen bits with its sign.
pub open spec fn signed16(n: int) -> int {
    if n < 0x8000 {
        n
    } else {
        n - 0x1_0000
    }
}

/// Where the pointer is: across in the lower half of a parameter, down in the
/// upper half.
pub fn pointer_position(lparam: u32) -> (r: (i32, i32))
    ensures
        r.0 == signed16(lparam as int % 0x1_0000),
        r.1 == signed16(lparam as int / 0x1_0000),
{
    let low: u32 = lparam % 0x1_0000;
    let high: u32 = lparam / 0x1_0000;
    let x: i32 = if low < 0x8000 {
        low as i32
    } else {
        low as i32 - 0x1_0000
    };
    let y: i32 = if high < 0x8000 {
        high as i32
    } else {
        high as i32 - 0x1_0000
    };
    (x, y)
}

/// Whether a point is where a monitor is drawn.
pub open spec fn is_on(preview: Rect, place: Place, x: int, y: int) -> bool {
    let (x0, y0, x1, y1) = drawn_at(preview, place);
    x0 <= x < x1 && y0 <= y < y1
}

/// Whether a point is in the preview.
pub open spec fn in_preview(preview: Rect, x: int, y: int) -> bool {
    preview.left <= x < preview.right && preview.top <= y < preview.bottom
}

/// Whether monitor `i` is the first that a point is on.
pub open spec fn is_hit(preview: Rect, places: Seq<Place>, x: int, y: int, i: int) -> bool {
    &&& in_preview(preview, x, y)
    &&& 0 <= i < places.len()
    &&& is_on(preview, places[i], x, y)
    &&& forall|j: int| 0 <= j < i ==> !is_on(preview, #[trigger] places[j], x, y)
}

/// What a click at a point does: it chooses the monitor that the point is on,
/// and nothing where there is none.
pub open spec fn clicked(
    before: DialogState,
    places: Seq<Place>,
    x: int,
    y: int,
    after: DialogState,
    actions: Seq<ActionView>,
) -> bool {
    ||| exists|i: int| #[trigger]
        is_hit(before.preview, places, x, y, i) && after == (DialogState {
            capture_mode: CaptureMode::Monitor(i as usize),
            ..before
        }) && actions == seq![
            ActionView::Check(ID_RADIO_COMBINED, false),
            ActionView::Check(ID_RADIO_WINDOW, false),
            ActionView::Enable(ID_COMBO_WINDOW, false),
            ActionView::Repaint,
        ]
    ||| (forall|i: int| !is_hit(before.preview, places, x, y, i)) && after == before
        && actions.len() == 0
}

impl DialogState {
    /// The first monitor in the preview that a point is on.
    pub fn monitor_at(&self, places: &Vec<Place>, x: i32, y: i32) -> (r: Option<usize>)
        requires
            forall|i: int|
                0 <= i < places@.len() ==> is_drawable(self.preview, #[trigger] places@[i]),
        ensures
            match r {
                Some(i) => is_hit(self.preview, places@, x as int, y as int, i as int),
                None => forall|i: int| !is_hit(self.preview, places@, x as int, y as int, i),
            },
    {
        let pr: Rect = self.preview;
        if !(x >= pr.left && x < pr.right && y >= pr.top && y < pr.bottom) {
            return None;
        }
        let mut i: usize = 0;
        while i < places.len()
            invariant
                i <= places@.len(),
                pr == self.preview,
                in_preview(pr, x as int, y as int),
                forall|i: int|
                    0 <= i < places@.len() ==> is_drawable(self.preview, #[trigger] places@[i]),
                forall|j: int|
                    0 <= j < i ==> !is_on(pr, #[trigger] places@[j], x as int, y as int),
            decreases places@.len() - i,
        {
            let place: Place = places[i];
            let ax: i32 = pr.left + place.x;
            let ay: i32 = pr.top + place.y;
            if x >= ax && x < ax + place.w && y >= ay && y < ay + place.h {
                return Some(i);
            }
            i = i + 1;
        }
        None
    }

    /// Chooses the monitor that was clicked on, if one was.
    pub fn left_button_down(&mut self, places: &Vec<Place>, lparam: u32) -> (r: Vec<DialogAction>)
        requires
            forall|i: int|
                0 <= i < places@.len() ==> is_drawable(old(self).preview, #[trigger] places@[i]),
        ensures
            clicked(
                *old(self),
                places@,
                signed16(lparam as int % 0x1_0000),
                signed16(lparam as int / 0x1_0000),
                *final(self),
                actions_view(r@),
            ),
    {
        let (x, y): (i32, i32) = pointer_position(lparam);
        let mut actions: Vec<DialogAction> = Vec::new();
        match self.monitor_at(places, x, y) {
            Some(i) => {
                self.capture_mode = CaptureMode::Monitor(i);
                put(&mut actions, DialogAction::Check { id: ID_RADIO_COMBINED, on: false });
                put(&mut actions, DialogAction::Check { id: ID_RADIO_WINDOW, on: false });
                put(&mut actions, DialogAction::Enable { id: ID_COMBO_WINDOW, on: false });
                put(&mut actions, DialogAction::Repaint);
                assert(actions_view(actions@) =~= seq![
                    ActionView::Check(ID_RADIO_COMBINED, false),
                    ActionView::Check(ID_RADIO_WINDOW, false),
                    ActionView::Enable(ID_COMBO_WINDOW, false),
                    ActionView::Repaint,
                ]);
                assert(is_hit(old(self).preview, places@, x as int, y as int, i as int));
            },
            None => {},
        }
        actions
    }
}

/// What a control asks for.
#[derive(Clone, Copy, Debug, PartialEq, Eq, Structural)]
pub enum DialogCommand {
    ChooseCombined,
    ChooseWindow,
    EnableAudio,
    DisableAudio,
    ListRenderDevices,
    ListCaptureDevices,
    Copy,
    Start,
    Quit,
    /// A choice that is looked at later.
    Noted,
    /// Nothing that the dialog knows.
    Unknown,
}

/// What a control with an identifier asks for when it gives a notice.
pub open spec fn command_of(id: int, notice: int) -> DialogCommand {
    if id == ID_RADIO_COMBINED {
        DialogCommand::ChooseCombined
    } else if id == ID_RADIO_WINDOW {
        DialogCommand::ChooseWindow
    } else if id == ID_RADIO_AUDIO_ENABLE {
        DialogCommand::EnableAudio
    } else if id == ID_RADIO_AUDIO_DISABLE {
        DialogCommand::DisableAudio
    } else if id == ID_RADIO_AUDIO_SYSTEM {
        DialogCommand::ListRenderDevices
    } else if id == ID_RADIO_AUDIO_MIC {
        DialogCommand::ListCaptureDevices
    } else if id == ID_BTN_COPY {
        DialogCommand::Copy
    } else if id == ID_BTN_START {
        DialogCommand::Start
    } else if id == ID_BTN_QUIT {
        DialogCommand::Quit
    } else if (id == ID_COMBO_WINDOW || id == ID_COMBO_AUDIO_DEVICE) && notice == CBN_SELCHANGE {
        DialogCommand::Noted
    } else {
        DialogCommand::Unknown
    }
}

/// What a command message asks for: the control is in the lower half of its
/// parameter, the notice in the upper half.
pub fn command(wparam: u32) -> (r: DialogCommand)
    ensures
        r == command_of(wparam as int % 0x1_0000, wparam as int / 0x1_0000),
{
    let id: i32 = (wparam % 0x1_0000) as i32;
    let notice: u16 = (wparam / 0x1_0000) as u16;
    if id == ID_RADIO_COMBINED {
        DialogCommand::ChooseCombined
    } else if id == ID_RADIO_WINDOW {
        DialogCommand::ChooseWindow
    } else if id == ID_COMBO_WINDOW && notice == CBN_SELCHANGE {
        DialogCommand::Noted
    } else if id == ID_RADIO_AUDIO_ENABLE {
        DialogCommand::EnableAudio
    } else if id == ID_RADIO_AUDIO_DISABLE {
        DialogCommand::DisableAudio
    } else if id == ID_RADIO_AUDIO_SYSTEM {
        DialogCommand::ListRenderDevices
    } else if id == ID_RADIO_AUDIO_MIC {
        DialogCommand::ListCaptureDevices
    } else if id == ID_COMBO_AUDIO_DEVICE && notice == CBN_SELCHANGE {
        DialogCommand::Noted
    } else if id == ID_BTN_COPY {
        DialogCommand::Copy
    } else if id == ID_BTN_START {
        DialogCommand::Start
    } else if id == ID_BTN_QUIT {
        DialogCommand::Quit
    } else {
        DialogCommand::Unknown
    }
}

/// What the controls hold when the stream is to be started.
pub struct DialogInputs {
    /// Which entry of the list of windows is chosen; below zero for none.
    pub window_index: i64,
    /// What is in the field for the frame rate.
    pub fps: Vec<u16>,
    /// What is in the field for the password.
    pub password: Vec<u16>,
    /// The state of the button for sound.
    pub audio_enabled: u32,
    /// The state of the button for the microphone.
    pub microphone: u32,
    /// Which entry of the list of devices is chosen; below zero for none.
    pub device_index: i64,
}

/// What is captured once the stream is started.
pub open spec fn settled_target(state: DialogState, inputs: DialogInputs) -> Target {
    match state.capture_mode {
        CaptureMode::Monitor(n) => Target::Monitor(n),
        CaptureMode::Combined => Target::Combined,
        CaptureMode::Window => if 0 <= inputs.window_index < state.windows@.len() {
            Target::Window(state.windows@[inputs.window_index as int].title)
        } else {
            Target::Monitor(0)
        },
    }
}

/// How many frames a second are wanted: what was typed where it is a number,
/// and sixty otherwise, but at least one and at most sixty.
pub open spec fn settled_fps(field: Seq<u16>) -> int {
    let n = match parsed_number(unit_chars(before_zero(field), '0'), u32::MAX as nat) {
        Some(n) => n as int,
        None => 60,
    };
    if n < 1 {
        1
    } else if n > 60 {
        60
    } else {
        n
    }
}

/// The password that was typed.
pub open spec fn settled_password(field: Seq<u16>) -> Seq<char> {
    unit_chars(before_zero(field), '\0')
}

/// Where the sound comes from.
pub open spec fn settled_source(inputs: DialogInputs) -> AudioSourceType {
    if inputs.microphone == BST_CHECKED {
        AudioSourceType::Microphone
    } else {
        AudioSourceType::SystemAudio
    }
}

/// The devices of a source.
pub open spec fn devices_of(state: DialogState, source: AudioSourceType) -> Seq<AudioDevice> {
    match source {
        AudioSourceType::SystemAudio => state.render_devices@,
        AudioSourceType::Microphone => state.capture_devices@,
    }
}

/// The settings of the sound.
pub open spec fn settled_audio(state: DialogState, inputs: DialogInputs) -> AudioSettings {
    let source = settled_source(inputs);
    let devices = devices_of(state, source);
    AudioSettings {
        enabled: inputs.audio_enabled == BST_CHECKED,
        source_type: source,
        device_id: if inputs.audio_enabled == BST_CHECKED && 0 <= inputs.device_index
            < devices.len() {
            Some(devices[inputs.device_index as int].id)
        } else {
            None
        },
    }
}

/// Whether the settings follow from the dialog and what its controls hold.
pub open spec fn settles(state: DialogState, inputs: DialogInputs, s: SettingsResult) -> bool {
    &&& s.target == settled_target(state, inputs)
    &&& s.fps == settled_fps(inputs.fps@)
    &&& s.host@ == HOST@
    &&& s.port == PORT
    &&& s.password@ == settled_password(inputs.password@)
    &&& s.audio == settled_audio(state, inputs)
}

/// What the button that starts the stream does: the settings are kept and the
/// dialog closes, unless there is no password.
pub open spec fn started(
    before: DialogState,
    inputs: DialogInputs,
    after: DialogState,
    actions: Seq<ActionView>,
) -> bool {
    if settled_password(inputs.password@).len() == 0 {
        &&& after == before
        &&& actions == seq![
            ActionView::Complain("ffscreencast"@, "Password cannot be empty."@),
        ]
    } else {
        &&& after.result matches Some(s)
        &&& settles(before, inputs, s)
        &&& after == DialogState { result: after.result, ..before }
        &&& actions == seq![ActionView::Close]
    }
}

fn fps_of(field: &Vec<u16>) -> (r: u32)
    ensures
        r == settled_fps(field@),
{
    let typed: String = chars_from_wide(field.as_slice(), '0');
    match parse_number(typed.as_str(), u32::MAX as u64) {
        Some(n) => if n < 1 {
            1
        } else if n > 60 {
            60
        } else {
            n as u32
        },
        None => 60,
    }
}

impl DialogState {
    fn target_of(&self, inputs: &DialogInputs) -> (r: Target)
        ensures
            r == settled_target(*self, *inputs),
    {
        match self.capture_mode {
            CaptureMode::Monitor(n) => Target::Monitor(n),
            CaptureMode::Combined => Target::Combined,
            CaptureMode::Window => {
                let count: u64 = self.windows.len() as u64;
                if inputs.window_index >= 0 && (inputs.window_index as u64) < count {
                    Target::Window(self.windows[inputs.window_index as usize].title.clone())
                } else {
                    Target::Monitor(0)
                }
            },
        }
    }

    fn audio_of(&self, inputs: &DialogInputs) -> (r: AudioSettings)
        ensures
            r == settled_audio(*self, *inputs),
    {
        let enabled: bool = inputs.audio_enabled == BST_CHECKED;
        let source_type: AudioSourceType = if inputs.microphone == BST_CHECKED {
            AudioSourceType::Microphone
        } else {
            AudioSourceType::SystemAudio
        };
        let devices: &Vec<AudioDevice> = match source_type {
            AudioSourceType::SystemAudio => &self.render_devices,
            AudioSourceType::Microphone => &self.capture_devices,
        };
        let count: u64 = devices.len() as u64;
        let device_id: Option<String> = if enabled && inputs.device_index >= 0 && (
        inputs.device_index as u64) < count {
            Some(devices[inputs.device_index as usize].id.clone())
        } else {
            None
        };
        AudioSettings { enabled, source_type, device_id }
    }

    /// Keeps the settings and closes the dialog, unless there is no password.
    pub fn start(&mut self, inputs: &DialogInputs) -> (r: Vec<DialogAction>)
        ensures
            started(*old(self), *inputs, *final(self), actions_view(r@)),
    {
        let mut actions: Vec<DialogAction> = Vec::new();
        let target: Target = self.target_of(inputs);
        let fps: u32 = fps_of(&inputs.fps);
        let password: String = chars_from_wide(inputs.password.as_slice(), '\0');
        let chars: Vec<char> = chars_of(password.as_str());
        if chars.len() == 0 {
            put(
                &mut actions,
                DialogAction::Complain {
                    title: "ffscreencast",
                    message: "Password cannot be empty.",
                },
            );
            assert(actions_view(actions@) =~= seq![
                ActionView::Complain("ffscreencast"@, "Password cannot be empty."@),
            ]);
            return actions;
        }
        let audio: AudioSettings = self.audio_of(inputs);
        self.result = Some(
            SettingsResult { target, fps, host: HOST.to_owned(), port: PORT, password, audio },
        );
        put(&mut actions, DialogAction::Close);
        assert(actions_view(actions@) =~= seq![ActionView::Close]);
        actions
    }
}

/// Whether the choice of devices can be used, or not.
pub open spec fn audio_enabled_view(on: bool) -> Seq<ActionView> {
    seq![
        ActionView::Enable(ID_COMBO_AUDIO_DEVICE, on),
        ActionView::Enable(ID_RADIO_AUDIO_SYSTEM, on),
        ActionView::Enable(ID_RADIO_AUDIO_MIC, on),
    ]
}

/// What a command does that needs no look at the controls.
pub open spec fn commanded(
    before: DialogState,
    command: DialogCommand,
    after: DialogState,
    actions: Seq<ActionView>,
) -> bool {
    match command {
        DialogCommand::ChooseCombined => {
            &&& after == DialogState { capture_mode: CaptureMode::Combined, ..before }
            &&& actions == seq![ActionView::Enable(ID_COMBO_WINDOW, false), ActionView::Repaint]
        },
        DialogCommand::ChooseWindow => {
            &&& after == DialogState { capture_mode: CaptureMode::Window, ..before }
            &&& actions == seq![ActionView::Enable(ID_COMBO_WINDOW, true), ActionView::Repaint]
        },
        DialogCommand::EnableAudio => after == before && actions == audio_enabled_view(true),
        DialogCommand::DisableAudio => after == before && actions == audio_enabled_view(false),
        DialogCommand::ListRenderDevices => after == before && actions == devices_listed(
            before.render_devices@,
        ),
        DialogCommand::ListCaptureDevices => after == before && actions == devices_listed(
            before.capture_devices@,
        ),
        DialogCommand::Quit => after == before && actions == seq![ActionView::Close],
        _ => after == before && actions.len() == 0,
    }
}

fn enable_audio(on: bool) -> (r: Vec<DialogAction>)
    ensures
        actions_view(r@) == audio_enabled_view(on),
{
    let mut actions: Vec<DialogAction> = Vec::new();
    put(&mut actions, DialogAction::Enable { id: ID_COMBO_AUDIO_DEVICE, on });
    put(&mut actions, DialogAction::Enable { id: ID_RADIO_AUDIO_SYSTEM, on });
    put(&mut actions, DialogAction::Enable { id: ID_RADIO_AUDIO_MIC, on });
    assert(actions_view(actions@) =~= audio_enabled_view(on));
    actions
}

impl DialogState {
    fn turn_to(&mut self, mode: CaptureMode, window: bool) -> (r: Vec<DialogAction>)
        ensures
            *final(self) == (DialogState { capture_mode: mode, ..*old(self) }),
            actions_view(r@) == seq![
                ActionView::Enable(ID_COMBO_WINDOW, window),
                ActionView::Repaint,
            ],
    {
        self.capture_mode = mode;
        let mut actions: Vec<DialogAction> = Vec::new();
        put(&mut actions, DialogAction::Enable { id: ID_COMBO_WINDOW, on: window });
        put(&mut actions, DialogAction::Repaint);
        assert(actions_view(actions@) =~= seq![
            ActionView::Enable(ID_COMBO_WINDOW, window),
            ActionView::Repaint,
        ]);
        actions
    }

    /// Does what a command asks for, where that needs no look at the controls.
    pub fn on_command(&mut self, command: DialogCommand) -> (r: Vec<DialogAction>)
        ensures
            commanded(*old(self), command, *final(self), actions_view(r@)),
    {
        match command {
            DialogCommand::ChooseCombined => self.turn_to(CaptureMode::Combined, false),
            DialogCommand::ChooseWindow => self.turn_to(CaptureMode::Window, true),
            DialogCommand::EnableAudio => enable_audio(true),
            DialogCommand::DisableAudio => enable_audio(false),
            DialogCommand::ListRenderDevices => populate_audio_devices(&self.render_devices),
            DialogCommand::ListCaptureDevices => populate_audio_devices(&self.capture_devices),
            DialogCommand::Quit => {
                let mut actions: Vec<DialogAction> = Vec::new();
                put(&mut actions, DialogAction::Close);
                assert(actions_view(actions@) =~= seq![ActionView::Close]);
                actions
            },
            _ => Vec::new(),
        }
    }

    /// Puts the address of the viewers, as its control holds it, on the
    /// clipboard.
    pub fn copy_url(&self, field: &Vec<u16>) -> (r: Vec<DialogAction>)
        ensures
            actions_view(r@) == seq![ActionView::Copy(lossy_text(before_zero(field@)))],
    {
        let mut actions: Vec<DialogAction> = Vec::new();
        put(&mut actions, DialogAction::Copy { text: text_from_wide(field.as_slice()) });
        assert(actions_view(actions@) =~= seq![
            ActionView::Copy(lossy_text(before_zero(field@))),
        ]);
        actions
    }
}

/// What the user has settled on: nothing where the dialog could not be shown or
/// was closed.
pub fn run_settings(shown: bool, state: DialogState) -> (r: Option<SettingsResult>)
    ensures
        r == if shown {
            state.result
        } else {
            None
        },
{
    if shown {
        state.result
    } else {
        None
    }
}

/// What a message to the dialog is about.
#[derive(Clone, Copy, Debug, PartialEq, Eq, Structural)]
pub enum WindowMessage {
    Create,
    EraseBackground,
    Paint,
    LeftButtonDown,
    Command,
    ColorEdit,
    ColorStatic,
    Close,
    Destroy,
    /// Nothing that the dialog knows.
    Other,
}

/// What a message to the dialog is about, by its number.
pub fn wndproc(msg: u32) -> (r: WindowMessage)
    ensures
        r == (if msg == 0x0001 {
            WindowMessage::Create
        } else if msg == 0x0014 {
            WindowMessage::EraseBackground
        } else if msg == 0x000F {
            WindowMessage::Paint
        } else if msg == 0x0201 {
            WindowMessage::LeftButtonDown
        } else if msg == 0x0111 {
            WindowMessage::Command
        } else if msg == 0x0133 {
            WindowMessage::ColorEdit
        } else if msg == 0x0138 {
            WindowMessage::ColorStatic
        } else if msg == 0x0010 {
            WindowMessage::Close
        } else if msg == 0x0002 {
            WindowMessage::Destroy
        } else {
            WindowMessage::Other
        }),
{
    match msg {
        0x0001 => WindowMessage::Create,
        0x0002 => WindowMessage::Destroy,
        0x000F => WindowMessage::Paint,
        0x0010 => WindowMessage::Close,
        0x0014 => WindowMessage::EraseBackground,
        0x0111 => WindowMessage::Command,
        0x0133 => WindowMessage::ColorEdit,
        0x0138 => WindowMessage::ColorStatic,
        0x0201 => WindowMessage::LeftButtonDown,
        _ => WindowMessage::Other,
    }
}

/// The colours of the text and of the ground of a control that asks for them.
pub fn control_colors(message: WindowMessage) -> (r: Option<(i32, i32)>)
    ensures
        r == (match message {
            WindowMessage::ColorEdit => Some((COLOR_WINDOWTEXT, COLOR_WINDOW)),
            WindowMessage::ColorStatic => Some((COLOR_BTNTEXT, COLOR_WINDOW)),
            _ => None,
        }),
{
    match message {
        WindowMessage::ColorEdit => Some((COLOR_WINDOWTEXT, COLOR_WINDOW)),
        WindowMessage::ColorStatic => Some((COLOR_BTNTEXT, COLOR_WINDOW)),
        _ => None,
    }
}

spec fn first_are_plain(s: Seq<char>, n: nat) -> bool
    decreases n,
{
    n == 0 || ('\0' < s[n - 1] <= '\u{7F}' && first_are_plain(s, (n - 1) as nat))
}

proof fn lemma_first_are_plain(s: Seq<char>, n: nat, i: int)
    requires
        first_are_plain(s, n),
        0 <= i < n,
    ensures
        '\0' < s[i] <= '\u{7F}',
    decreases n,
{
    if i < n - 1 {
        lemma_first_are_plain(s, (n - 1) as nat, i);
    }
}

proof fn lemma_default_password_is_plain(s: Seq<char>)
    requires
        is_default_password(s),
    ensures
        is_plain(s),
{
    reveal_strlit("ABCDEFGHJKLMNPQRSTUVWXYZabcdefghjkmnpqrstuvwxyz23456789");
    assert(first_are_plain(PASSWORD_CHARS@, 55)) by {
        reveal_with_fuel(first_are_plain, 56);
    }
    assert forall|i: int| 0 <= i < s.len() implies '\0' < #[trigger] s[i] <= '\u{D7FF}' by {
        assert(PASSWORD_CHARS@.contains(s[i]));
        let k = choose|k: int| 0 <= k < PASSWORD_CHARS@.len() && PASSWORD_CHARS@[k] == s[i];
        lemma_first_are_plain(PASSWORD_CHARS@, 55, k);
    }
}

/// Who starts with the password that the dialog proposes has it as it was
/// proposed.
pub proof fn proposed_password_is_accepted(
    password: Seq<char>,
    before: DialogState,
    inputs: DialogInputs,
    after: DialogState,
    actions: Seq<ActionView>,
)
    requires
        is_default_password(password),
        inputs.password@ == utf16(password).push(0),
        started(before, inputs, after, actions),
    ensures
        after.result matches Some(s) && s.password@ == password,
        actions == seq![ActionView::Close],
{
    lemma_default_password_is_plain(password);
    plain_text_reads_back(password, '\0');
}

/// Settings always have a password, a frame rate that the stream can keep, and
/// a device that was on the list.
pub proof fn settings_are_usable(
    before: DialogState,
    inputs: DialogInputs,
    after: DialogState,
    actions: Seq<ActionView>,
)
    requires
        before.result is None,
        started(before, inputs, after, actions),
    ensures
        after.result matches Some(s) ==> {
            &&& s.password@.len() > 0
            &&& 1 <= s.fps <= 60
            &&& s.audio.device_id matches Some(id) ==> exists|i: int|
                0 <= i < devices_of(before, s.audio.source_type).len() && (#[trigger] devices_of(
                    before,
                    s.audio.source_type,
                )[i]).id == id
        },
{
}

/// The monitor that was clicked on last is what is captured.
pub proof fn clicked_monitor_is_captured(
    before: DialogState,
    places: Seq<Place>,
    x: int,
    y: int,
    i: int,
    chosen: DialogState,
    shown: Seq<ActionView>,
    inputs: DialogInputs,
    after: DialogState,
    actions: Seq<ActionView>,
)
    requires
        before.result is None,
        is_hit(before.preview, places, x, y, i),
        clicked(before, places, x, y, chosen, shown),
        started(chosen, inputs, after, actions),
    ensures
        after.result matches Some(s) ==> s.target == Target::Monitor(i as usize),
{
    let j = choose|j: int| #[trigger]
        is_hit(before.preview, places, x, y, j) && chosen == (DialogState {
            capture_mode: CaptureMode::Monitor(j as usize),
            ..before
        });
    if j < i {
        assert(!is_on(before.preview, places[j], x, y));
    }
    if i < j {
        assert(!is_on(before.preview, places[i], x, y));
    }
}

/// Whether a field holds a text as it was typed.
pub open spec fn holds_text(field: Seq<u16>, text: Seq<char>) -> bool {
    is_plain(text) && field == utf16(text).push(0)
}

/// Where `Window` is chosen and entry `i` of the list of windows is picked, the
/// settings capture the window with the title that the list holds at place `i`.
pub proof fn picked_windows_are_captured(
    dialog: &&mut DialogState,
    before: DialogState,
    after: DialogState,
    inputs: DialogInputs,
    r: Vec<DialogAction>,
    settings: SettingsResult,
    i: int,
)
    requires
        call_ensures(DialogState::start, (*dialog, &inputs), r),
        before == **dialog,
        after == *final(*dialog),
        before.result is None,
        after.result == Some(settings),
        before.capture_mode == CaptureMode::Window,
        inputs.window_index == i,
        0 <= i < before.windows@.len(),
    ensures
        settings.target matches Target::Window(title) && title@ == before.windows@[i].title@,
{
}

/// Different titles that are picked give different targets, and the same title
/// the same.
pub proof fn different_picks_give_different_targets(
    dialog: &&mut DialogState,
    again: &&mut DialogState,
    first: DialogInputs,
    second: DialogInputs,
    r: Vec<DialogAction>,
    s: Vec<DialogAction>,
    a: SettingsResult,
    b: SettingsResult,
)
    requires
        call_ensures(DialogState::start, (*dialog, &first), r),
        call_ensures(DialogState::start, (*again, &second), s),
        (**dialog).result is None,
        (**again).result is None,
        (**dialog).windows == (**again).windows,
        (**dialog).capture_mode == CaptureMode::Window,
        (**again).capture_mode == CaptureMode::Window,
        final(*dialog).result == Some(a),
        final(*again).result == Some(b),
        0 <= first.window_index < (**dialog).windows@.len(),
        0 <= second.window_index < (**dialog).windows@.len(),
    ensures
        old(*dialog).windows@[first.window_index as int].title@ != old(
            *dialog,
        ).windows@[second.window_index as int].title@ ==> a.target != b.target,
        old(*dialog).windows@[first.window_index as int].title == old(
            *dialog,
        ).windows@[second.window_index as int].title ==> a.target == b.target,
{
    picked_windows_are_captured(
        dialog,
        **dialog,
        *final(*dialog),
        first,
        r,
        a,
        first.window_index as int,
    );
    picked_windows_are_captured(
        again,
        **again,
        *final(*again),
        second,
        s,
        b,
        second.window_index as int,
    );
}

/// The settings capture the monitor that is chosen, all monitors where that is
/// chosen, and the first monitor where a window is wanted and none is picked.
pub proof fn chosen_monitors_are_captured(
    dialog: &&mut DialogState,
    before: DialogState,
    after: DialogState,
    inputs: DialogInputs,
    r: Vec<DialogAction>,
    settings: SettingsResult,
)
    requires
        call_ensures(DialogState::start, (*dialog, &inputs), r),
        before == **dialog,
        after == *final(*dialog),
        before.result is None,
        after.result == Some(settings),
    ensures
        before.capture_mode matches CaptureMode::Monitor(n) ==> settings.target == Target::Monitor(
            n,
        ),
        before.capture_mode is Combined ==> settings.target is Combined,
        before.capture_mode is Window && !(0 <= inputs.window_index < before.windows@.len())
            ==> settings.target == Target::Monitor(0),
{
}

/// Who starts with a password has it as it was typed, and the dialog closes;
/// without one nothing is settled, and the dialog complains and stays.
pub proof fn typed_passwords_are_kept(
    dialog: &&mut DialogState,
    before: DialogState,
    after: DialogState,
    inputs: DialogInputs,
    r: Vec<DialogAction>,
    password: Seq<char>,
)
    requires
        call_ensures(DialogState::start, (*dialog, &inputs), r),
        before == **dialog,
        after == *final(*dialog),
        holds_text(inputs.password@, password),
    ensures
        password.len() > 0 ==> (after.result matches Some(s) && s.password@ == password)
            && r@.len() == 1 && r@[0] is Close,
        password.len() == 0 ==> after == before && r@.len() == 1 && r@[0] is Complain,
        after == (DialogState { result: after.result, ..before }),
{
    plain_text_reads_back(password, '\0');
    assert(actions_view(r@).len() == r@.len());
    assert(actions_view(r@)[0] == r@[0].view());
}

proof fn lemma_digit_char(d: nat)
    requires
        d < 10,
    ensures
        '\0' < digit_char(d) <= '\u{D7FF}',
{
}

proof fn lemma_decimal_is_plain(n: nat)
    ensures
        is_plain(decimal(n)),
    decreases n,
{
    let s = decimal(n);
    lemma_digit_char(n % 10);
    if n >= 10 {
        lemma_decimal_is_plain(n / 10);
        assert forall|i: int| 0 <= i < s.len() implies '\0' < #[trigger] s[i] <= '\u{D7FF}' by {
            if i < s.len() - 1 {
                assert(s[i] == decimal(n / 10)[i]);
            }
        }
    }
}

/// A frame rate from one to sixty that is typed becomes the frame rate; zero
/// becomes one, and everything above sixty becomes sixty.
pub proof fn typed_rates_are_kept(
    dialog: &&mut DialogState,
    before: DialogState,
    after: DialogState,
    inputs: DialogInputs,
    r: Vec<DialogAction>,
    settings: SettingsResult,
    n: nat,
)
    requires
        call_ensures(DialogState::start, (*dialog, &inputs), r),
        before == **dialog,
        after == *final(*dialog),
        before.result is None,
        after.result == Some(settings),
        inputs.fps@ == utf16(decimal(n)).push(0),
    ensures
        1 <= n <= 60 ==> settings.fps == n,
        n == 0 ==> settings.fps == 1,
        n > 60 ==> settings.fps == 60,
{
    lemma_decimal_is_plain(n);
    plain_text_reads_back(decimal(n), '0');
    decimal_reads_back(n, n);
    assert(crate::text::is_digit(decimal(n)[0]));
    assert(crate::text::unsigned_part(decimal(n)) == decimal(n));
}

/// What is no number makes sixty frames a second.
pub proof fn other_rates_become_sixty(
    dialog: &&mut DialogState,
    before: DialogState,
    after: DialogState,
    inputs: DialogInputs,
    r: Vec<DialogAction>,
    settings: SettingsResult,
    text: Seq<char>,
    i: int,
)
    requires
        call_ensures(DialogState::start, (*dialog, &inputs), r),
        before == **dialog,
        after == *final(*dialog),
        before.result is None,
        after.result == Some(settings),
        holds_text(inputs.fps@, text),
        text.len() == 0 || 0 <= i < text.len() && !(48 <= text[i] as u32 <= 57) && (i > 0
            || text[0] != '+'),
    ensures
        settings.fps == 60,
{
    plain_text_reads_back(text, '0');
    let d = crate::text::unsigned_part(text);
    if text.len() > 0 {
        if text[0] == '+' {
            assert(d[i - 1] == text[i]);
            assert(!crate::text::is_digit(d[i - 1]));
        } else {
            assert(!crate::text::is_digit(d[i]));
        }
    }
}

/// Sound is on exactly if its button is; it comes from the microphone exactly if
/// that button is on; and the device is the one that is picked from the list of
/// that source, where sound is on and one is picked.
pub proof fn picked_devices_are_used(
    dialog: &&mut DialogState,
    before: DialogState,
    after: DialogState,
    inputs: DialogInputs,
    r: Vec<DialogAction>,
    settings: SettingsResult,
)
    requires
        call_ensures(DialogState::start, (*dialog, &inputs), r),
        before == **dialog,
        after == *final(*dialog),
        before.result is None,
        after.result == Some(settings),
    ensures
        settings.audio.enabled <==> inputs.audio_enabled == 1,
        settings.audio.source_type is Microphone <==> inputs.microphone == 1,
        ({
            let list = if inputs.microphone == 1 {
                before.capture_devices@
            } else {
                before.render_devices@
            };
            if inputs.audio_enabled == 1 && 0 <= inputs.device_index < list.len() {
                settings.audio.device_id matches Some(id) && id@
                    == list[inputs.device_index as int].id@
            } else {
                settings.audio.device_id is None
            }
        }),
        settings.port == 8080,
        settings.host@ == "0.0.0.0"@,
{
}

/// The settings are what the dialog was left with, where it was shown.
pub proof fn settings_are_those_of_the_dialog(
    shown: bool,
    state: DialogState,
    r: Option<SettingsResult>,
)
    requires
        call_ensures(run_settings, (shown, state), r),
    ensures
        shown ==> r == state.result,
        !shown ==> r is None,
{
}

/// A new dialog has the first primary monitor chosen, or the first one where
/// none is primary, and holds the lists as they were given.
pub proof fn dialogs_begin_with_the_primary_monitor(
    monitors: Vec<MonitorInfo>,
    windows: Vec<WindowInfo>,
    render_devices: Vec<AudioDevice>,
    capture_devices: Vec<AudioDevice>,
    r: DialogState,
    j: int,
)
    requires
        call_ensures(DialogState::new, (monitors, windows, render_devices, capture_devices), r),
        0 <= j < monitors@.len(),
    ensures
        r.capture_mode matches CaptureMode::Monitor(n) && n < monitors@.len() && (
        monitors@[j].is_primary ==> monitors@[n as int].is_primary && n <= j) && (n > 0
            ==> monitors@[n as int].is_primary),
        r.monitors == monitors && r.windows == windows,
        r.render_devices == render_devices && r.capture_devices == capture_devices,
        r.result is None,
{
}

/// Whether a point of the dialog lies where a monitor is drawn in the preview.
pub open spec fn lies_on(preview: Rect, place: Place, x: int, y: int) -> bool {
    &&& preview.left + place.x <= x < preview.left + place.x + place.w
    &&& preview.top + place.y <= y < preview.top + place.y + place.h
}

/// A click in the preview chooses the first monitor that lies under it, and one
/// beside the preview or beside all monitors chooses nothing; nothing else in
/// the dialog changes.
pub proof fn clicks_choose_what_lies_under_them(
    dialog: &&mut DialogState,
    before: DialogState,
    after: DialogState,
    places: Vec<Place>,
    lparam: u32,
    r: Vec<DialogAction>,
    x: int,
    y: int,
    i: int,
)
    requires
        call_ensures(DialogState::left_button_down, (*dialog, &places, lparam), r),
        before == **dialog,
        after == *final(*dialog),
        -0x8000 <= x < 0x8000,
        -0x8000 <= y < 0x8000,
        lparam == x % 0x1_0000 + (y % 0x1_0000) * 0x1_0000,
    ensures
        ({
            let p = before.preview;
            let inside = p.left <= x < p.right && p.top <= y < p.bottom;
            &&& inside && 0 <= i < places@.len() && lies_on(p, places@[i], x, y) && (forall|j: int|
                0 <= j < i ==> !lies_on(p, #[trigger] places@[j], x, y)) ==> after.capture_mode
                == CaptureMode::Monitor(i as usize) && r@.len() == 4 && r@[0].view()
                == ActionView::Check(ID_RADIO_COMBINED, false) && r@[1].view()
                == ActionView::Check(ID_RADIO_WINDOW, false) && r@[2].view() == ActionView::Enable(
                ID_COMBO_WINDOW,
                false,
            ) && r@[3].view() == ActionView::Repaint
            &&& !inside || (forall|j: int|
                0 <= j < places@.len() ==> !lies_on(p, #[trigger] places@[j], x, y)) ==> after
                == before && r@.len() == 0
        }),
        after == (DialogState { capture_mode: after.capture_mode, ..before }),
{
    let p = before.preview;
    assert(signed16(lparam as int % 0x1_0000) == x);
    assert(signed16(lparam as int / 0x1_0000) == y);
    assert(actions_view(r@).len() == r@.len());
    if p.left <= x < p.right && p.top <= y < p.bottom && 0 <= i < places@.len() && lies_on(
        p,
        places@[i],
        x,
        y,
    ) && (forall|j: int| 0 <= j < i ==> !lies_on(p, #[trigger] places@[j], x, y)) {
        assert(is_hit(p, places@, x, y, i)) by {
            assert forall|j: int| 0 <= j < i implies !is_on(p, #[trigger] places@[j], x, y) by {
                assert(!lies_on(p, places@[j], x, y));
            }
        }
        let k = choose|k: int| #[trigger]
            is_hit(p, places@, x, y, k) && after == (DialogState {
                capture_mode: CaptureMode::Monitor(k as usize),
                ..before
            });
        assert(actions_view(r@)[0] == r@[0].view());
        assert(actions_view(r@)[1] == r@[1].view());
        assert(actions_view(r@)[2] == r@[2].view());
        assert(actions_view(r@)[3] == r@[3].view());
        if k < i {
            assert(!lies_on(p, places@[k], x, y));
        }
        if i < k {
            assert(!is_on(p, places@[i], x, y));
        }
    }
    if !(p.left <= x < p.right && p.top <= y < p.bottom) || (forall|j: int|
        0 <= j < places@.len() ==> !lies_on(p, #[trigger] places@[j], x, y)) {
        assert forall|k: int| !is_hit(p, places@, x, y, k) by {
            if is_hit(p, places@, x, y, k) {
                assert(lies_on(p, places@[k], x, y));
            }
        }
    }
}

/// A pointer stands at the numbers that its message holds, each with its sign.
pub proof fn pointers_stand_where_their_message_says(lparam: u32, r: (i32, i32), x: int, y: int)
    requires
        call_ensures(pointer_position, (lparam,), r),
        -0x8000 <= x < 0x8000,
        -0x8000 <= y < 0x8000,
        lparam == x % 0x1_0000 + (y % 0x1_0000) * 0x1_0000,
    ensures
        r == (x as i32, y as i32),
{
}

/// A window in the middle of a screen leaves as much on one side as on the
/// other, up to one.
pub proof fn centered_windows_leave_equal_sides(screen: i32, size: i32, r: i32)
    requires
        call_ensures(centered, (screen, size), r),
    ensures
        ({
            let before = r as int;
            let behind = screen - size - r;
            &&& -1 <= behind - before <= 1
            &&& screen >= size ==> before <= behind
            &&& screen < size ==> before >= behind
        }),
{
}

/// The edges of the desktop hold every monitor, and every rectangle that does so
/// holds them.
pub proof fn desktops_are_as_large_as_their_monitors(
    monitors: Vec<MonitorInfo>,
    r: Option<Rect>,
    i: int,
    outer: Rect,
)
    requires
        call_ensures(desktop_bounds, (&monitors,), r),
        0 <= i < monitors@.len(),
    ensures
        r is Some,
        r matches Some(b) ==> {
            &&& b.left <= monitors@[i].x && monitors@[i].x + monitors@[i].width <= b.right
            &&& b.top <= monitors@[i].y && monitors@[i].y + monitors@[i].height <= b.bottom
            &&& (forall|j: int|
                0 <= j < monitors@.len() ==> outer.left <= (#[trigger] monitors@[j]).x
                    && monitors@[j].x + monitors@[j].width <= outer.right && outer.top
                    <= monitors@[j].y && monitors@[j].y + monitors@[j].height <= outer.bottom)
                ==> outer.left <= b.left && b.right <= outer.right && outer.top <= b.top && b.bottom
                <= outer.bottom
        },
{
    if let Some(b) = r {
        assert(are_edges(
            monitors@,
            b.left as int,
            b.top as int,
            b.right as int,
            b.bottom as int,
        ));
        assert(lies_within(
            monitors@[i],
            b.left as int,
            b.top as int,
            b.right as int,
            b.bottom as int,
        ));
    }
}

/// The buttons that choose what is captured turn the dialog to it, and the list
/// of windows can be used exactly where a window is wanted; no other command
/// changes the dialog.
pub proof fn buttons_turn_the_dialog(
    dialog: &&mut DialogState,
    before: DialogState,
    after: DialogState,
    command: DialogCommand,
    r: Vec<DialogAction>,
)
    requires
        call_ensures(DialogState::on_command, (*dialog, command), r),
        before == **dialog,
        after == *final(*dialog),
    ensures
        after.capture_mode == (match command {
            DialogCommand::ChooseCombined => CaptureMode::Combined,
            DialogCommand::ChooseWindow => CaptureMode::Window,
            _ => before.capture_mode,
        }),
        after == (DialogState { capture_mode: after.capture_mode, ..before }),
        command is ChooseWindow || command is ChooseCombined ==> r@.len() == 2 && r@[0] == (
        DialogAction::Enable { id: 2000, on: command is ChooseWindow }) && r@[1] is Repaint,
        command is EnableAudio || command is DisableAudio ==> r@.len() == 3 && forall|k: int|
            0 <= k < 3 ==> (#[trigger] r@[k] matches DialogAction::Enable { on, .. } && on == (
            command is EnableAudio)),
        command is Quit ==> r@.len() == 1 && r@[0] is Close,
        command is Noted || command is Unknown || command is Copy || command is Start ==> r@.len()
            == 0,
{
    let v = actions_view(r@);
    assert(v.len() == r@.len());
    assert forall|k: int| 0 <= k < r@.len() implies #[trigger] v[k] == r@[k].view() by {}
    if r@.len() > 0 {
        assert(v[0] == r@[0].view());
    }
    if r@.len() > 1 {
        assert(v[1] == r@[1].view());
    }
    if r@.len() > 2 {
        assert(v[2] == r@[2].view());
    }
}

/// The list of devices shows the name of device `i` as its entry `i`, behind
/// what clears it, and has its first entry chosen where there is one: of the
/// sources of sound for the one button and of the microphones for the other.
pub proof fn devices_are_listed_in_order(
    dialog: &&mut DialogState,
    before: DialogState,
    command: DialogCommand,
    r: Vec<DialogAction>,
    i: int,
)
    requires
        call_ensures(DialogState::on_command, (*dialog, command), r),
        before == **dialog,
        command is ListRenderDevices || command is ListCaptureDevices,
    ensures
        ({
            let list = if command is ListRenderDevices {
                before.render_devices@
            } else {
                before.capture_devices@
            };
            &&& r@.len() == list.len() + (if list.len() > 0 {
                2int
            } else {
                1int
            })
            &&& r@[0] == (DialogAction::Reset { id: 6004 })
            &&& 0 <= i < list.len() ==> (r@[1 + i] matches DialogAction::AddText { id, text } && id
                == 6004 && text@ == list[i].name@)
            &&& list.len() > 0 ==> r@.last() == (DialogAction::SelectFirst { id: 6004 })
        }),
{
    let list = if command is ListRenderDevices {
        before.render_devices@
    } else {
        before.capture_devices@
    };
    let v = actions_view(r@);
    assert(v == devices_listed(list));
    assert(v.len() == r@.len());
    assert(v[0] == r@[0].view());
    if 0 <= i < list.len() {
        assert(v[1 + i] == r@[1 + i].view());
        assert(v[1 + i] == ActionView::AddText(6004, list[i].name@));
    }
    if list.len() > 0 {
        let n = r@.len() - 1;
        assert(v[n] == r@[n].view());
        assert(v[n] == ActionView::SelectFirst(6004));
    }
}

/// The list of windows shows window `i` as its entry `i`: its title where that
/// has at most fifty characters, and otherwise its first forty-seven and three
/// dots.
pub proof fn windows_are_shown_in_order(
    windows: Vec<WindowInfo>,
    devices: Vec<AudioDevice>,
    password: &str,
    ip: &str,
    r: DialogLayout,
    i: int,
)
    requires
        call_ensures(lay_out, (&windows, &devices, password, ip), r),
        0 <= i < windows@.len(),
    ensures
        r.actions@.len() > 4 + i,
        r.actions@[4 + i] matches DialogAction::AddText { id, text } && id == 2000 && {
            let title = windows@[i].title@;
            if title.len() <= 50 {
                text@ == title
            } else {
                text@.len() == 50 && text@.take(47) == title.take(47) && text@[47] == '.'
                    && text@[48] == '.' && text@[49] == '.'
            }
        },
{
    let v = actions_view(r.actions@);
    assert(v.len() == r.actions@.len());
    let shown = source_controls(16, windows@);
    assert(shown[4 + i] == ActionView::AddText(2000, short_title(windows@[i].title@)));
    assert(v[4 + i] == shown[4 + i]);
    assert(v[4 + i] == r.actions@[4 + i].view());
    reveal_strlit("...");
    let title = windows@[i].title@;
    if title.len() > 50 {
        assert(short_title(title).take(47) =~= title.take(47));
    }
}

/// What is copied is the text that the field holds.
pub proof fn copied_addresses_are_those_shown(
    dialog: DialogState,
    field: Vec<u16>,
    r: Vec<DialogAction>,
    text: Seq<char>,
)
    requires
        call_ensures(DialogState::copy_url, (&dialog, &field), r),
        holds_text(field@, text),
    ensures
        r@.len() == 1,
        r@[0] matches DialogAction::Copy { text: t } && t@ == text,
{
    let v = actions_view(r@);
    assert(v.len() == r@.len());
    assert(v[0] == r@[0].view());
    plain_text_reads_back(text, 'x');
    crate::wide::plain_units_stand_before_zero(text);
    utf16_reads_back(text);
}

/// Every control asks for its own thing, whatever the notice; the two lists ask
/// for nothing but to be noted, and that only when their choice changes.
pub proof fn controls_ask_for_their_own(wparam: u32, r: DialogCommand)
    requires
        call_ensures(command, (wparam,), r),
    ensures
        ({
            let id = wparam as int % 0x1_0000;
            &&& r is ChooseCombined <==> id == 1998
            &&& r is ChooseWindow <==> id == 1999
            &&& r is Copy <==> id == 4000
            &&& r is Start <==> id == 4001
            &&& r is Quit <==> id == 4002
            &&& r is EnableAudio <==> id == 6000
            &&& r is DisableAudio <==> id == 6001
            &&& r is ListRenderDevices <==> id == 6002
            &&& r is ListCaptureDevices <==> id == 6003
            &&& r is Noted <==> (id == 2000 || id == 6004) && wparam as int / 0x1_0000 == 1
        }),
{
}

/// A proposed password has one character for each byte, that of the byte's
/// number among the fifty-five that are used.
pub proof fn bytes_make_passwords(bytes: Vec<u8>, r: String, i: int)
    requires
        call_ensures(password_of, (&bytes,), r),
        0 <= i < bytes@.len(),
    ensures
        r@.len() == bytes@.len(),
        r@[i] == PASSWORD_CHARS@[bytes@[i] as int % 55],
{
    reveal_strlit("ABCDEFGHJKLMNPQRSTUVWXYZabcdefghjkmnpqrstuvwxyz23456789");
}

/// A message is known by its own number and by no other.
pub proof fn messages_are_known_by_their_number(msg: u32, r: WindowMessage)
    requires
        call_ensures(wndproc, (msg,), r),
    ensures
        r is Create <==> msg == 0x0001,
        r is Destroy <==> msg == 0x0002,
        r is Paint <==> msg == 0x000F,
        r is Close <==> msg == 0x0010,
        r is EraseBackground <==> msg == 0x0014,
        r is Command <==> msg == 0x0111,
        r is ColorEdit <==> msg == 0x0133,
        r is ColorStatic <==> msg == 0x0138,
        r is LeftButtonDown <==> msg == 0x0201,
{
}

/// The dialog proposes the password that it is given and shows the address at
/// which viewers reach this machine.
pub proof fn dialogs_show_password_and_address(
    windows: Vec<WindowInfo>,
    devices: Vec<AudioDevice>,
    password: &str,
    ip: &str,
    r: DialogLayout,
)
    requires
        call_ensures(lay_out, (&windows, &devices, password, ip), r),
    ensures
        exists|k: int|
            0 <= k < r.actions@.len() && (#[trigger] r.actions@[k] matches DialogAction::SetText {
                id,
                text,
            } && id == 3100 && text@ == password@),
        exists|k: int|
            0 <= k < r.actions@.len() && (#[trigger] r.actions@[k] matches DialogAction::Create {
                id,
                text,
                ..
            } && id == 5000 && text@ == "http://"@ + ip@ + ":8080"@),
{
    let v = actions_view(r.actions@);
    assert(v.len() == r.actions@.len());
    let a = source_controls(16, windows@) + rate_controls(340);
    let p = password_controls(422, password@);
    let k = a.len() as int + 2;
    assert((a + p)[k] == p[2]);
    assert(v[k] == p[2]);
    assert(v[k] == r.actions@[k].view());
    let b = a + p + sound_controls(504, devices@);
    let u = url_controls(616, viewer_url(ip@));
    let n = b.len() as int + 1;
    assert(v[n] == u[1]);
    assert(v[n] == r.actions@[n].view());
}

proof fn lemma_painted_block(
    state: DialogState,
    places: Seq<Place>,
    pictures: Seq<bool>,
    n: int,
    i: int,
    t: int,
)
    requires
        0 <= i < n,
        0 <= t < monitor_painted(
            state.preview,
            places[i],
            has_picture(pictures, i),
            is_chosen(state.capture_mode, i),
            i,
            state.monitors@[i],
        ).len(),
    ensures
        monitors_painted(state, places, pictures, i).len() + t < monitors_painted(
            state,
            places,
            pictures,
            n,
        ).len(),
        monitors_painted(state, places, pictures, n)[monitors_painted(
            state,
            places,
            pictures,
            i,
        ).len() + t] == monitor_painted(
            state.preview,
            places[i],
            has_picture(pictures, i),
            is_chosen(state.capture_mode, i),
            i,
            state.monitors@[i],
        )[t],
    decreases n,
{
    if i < n - 1 {
        lemma_painted_block(state, places, pictures, n - 1, i, t);
    }
}

/// Every monitor is painted at its place in the preview: its picture, or a plain
/// rectangle without one; a frame, which is marked and doubled exactly if the
/// monitor is chosen; and at its bottom a black bar that tells its number and
/// its size in white.
pub proof fn every_monitor_is_painted(
    state: DialogState,
    places: Vec<Place>,
    pictures: Vec<bool>,
    r: Vec<PaintAction>,
    i: int,
)
    requires
        call_ensures(DialogState::paint, (&state, &places, &pictures), r),
        0 <= i < places@.len() <= state.monitors@.len(),
        is_drawable(state.preview, places@[i]),
    ensures
        ({
            let place = places@[i];
            let m = state.monitors@[i];
            let left = (state.preview.left + place.x) as i32;
            let top = (state.preview.top + place.y) as i32;
            let right = (state.preview.left + place.x + place.w) as i32;
            let bottom = (state.preview.top + place.y + place.h) as i32;
            let bar = Rect { left, top: (bottom - 22) as i32, right, bottom };
            let chosen = state.capture_mode == CaptureMode::Monitor(i as usize)
                || state.capture_mode is Combined;
            let color = PaintColor::System(
                if chosen {
                    13
                } else {
                    15
                },
            );
            let more = if chosen {
                1int
            } else {
                0int
            };
            exists|k: int|
                {
                    &&& 1 <= k && k + 3 + more < r@.len()
                    &&& (#[trigger] r@[k]).view() == (if i < pictures@.len() && pictures@[i] {
                        PaintView::Picture(
                            i as usize,
                            Place { x: left, y: top, w: place.w, h: place.h },
                        )
                    } else {
                        PaintView::Fill(Rect { left, top, right, bottom }, PaintColor::System(15))
                    })
                    &&& r@[k + 1].view() == PaintView::Frame(
                        Rect { left, top, right, bottom },
                        color,
                    )
                    &&& chosen ==> r@[k + 2].view() == PaintView::Frame(
                        Rect {
                            left: (left + 2) as i32,
                            top: (top + 2) as i32,
                            right: (right - 2) as i32,
                            bottom: (bottom - 2) as i32,
                        },
                        color,
                    )
                    &&& r@[k + 2 + more].view() == PaintView::Fill(bar, PaintColor::Rgb(0))
                    &&& r@[k + 3 + more].view() == PaintView::Text(
                        "Monitor "@ + decimal(m.index as nat) + " \u{2013} "@ + decimal(
                            m.width as nat,
                        ) + " \u{00D7} "@ + decimal(m.height as nat),
                        bar,
                        PaintColor::Rgb(0x00FF_FFFF),
                    )
                }
        }),
{
    let v = paints_view(r@);
    let n = places@.len() as int;
    assert(v.len() == r@.len());
    let at = monitors_painted(state, places@, pictures@, i).len() as int;
    let whole = monitors_painted(state, places@, pictures@, n);
    let block = monitor_painted(
        state.preview,
        places@[i],
        has_picture(pictures@, i),
        is_chosen(state.capture_mode, i),
        i,
        state.monitors@[i],
    );
    let k = 1 + at;
    assert(block.len() >= 4);
    assert forall|t: int| 0 <= t < block.len() implies k + t < v.len() && v[k + t]
        == #[trigger] block[t] by {
        lemma_painted_block(state, places@, pictures@, n, i, t);
        assert(v[k + t] == whole[at + t]);
    }
    assert(v[k + 0] == block[0]);
    assert(k < v.len() && v[k] == r@[k].view());
    assert(v[k + 1] == block[1] && v[k + 1] == r@[k + 1].view());
    assert(v[k + 2] == block[2] && v[k + 2] == r@[k + 2].view());
    assert(v[k + 3] == block[3] && v[k + 3] == r@[k + 3].view());
    if block.len() > 4 {
        assert(v[k + 4] == block[4] && v[k + 4] == r@[k + 4].view());
    }
    if let CaptureMode::Monitor(chosen) = state.capture_mode {
        assert(state.monitors.len() == state.monitors@.len());
        assert(chosen == i <==> chosen == i as usize);
    }
}

/// Without monitors the preview says so.
pub proof fn empty_previews_say_so(state: DialogState, places: Vec<Place>, pictures: Vec<bool>, r: Vec<PaintAction>)
    requires
        call_ensures(DialogState::paint, (&state, &places, &pictures), r),
    ensures
        r@.len() > 0,
        r@[0].view() == PaintView::Fill(state.preview, PaintColor::System(5)),
        places@.len() == 0 ==> r@.len() == 2 && (r@[1] matches PaintAction::Text { text, rect, .. }
            && text@ == "No monitors detected"@ && rect == state.preview),
{
    let v = paints_view(r@);
    assert(v.len() == r@.len());
    assert(v[0] == r@[0].view());
    if places@.len() == 0 {
        assert(v[1] == r@[1].view());
    }
}

} // verus!
