//! What can be captured, and how captured memory becomes frames.

use vstd::prelude::*;
use vstd::string::*;

use crate::order::{
    is_stable_order, stable_order, stable_order_is_unique, text_le, Place, Title,
};
use crate::pixels::{swap_red_blue, swapped};
use crate::text::{chars_of, decimal, push_decimal};
use crate::wide::{before_zero, lossy_text, text_from_wide};

verus! {

/// A picture of four bytes per pixel, red first.
pub struct Frame {
    pub width: u32,
    pub height: u32,
    pub data: Vec<u8>,
}

impl Frame {
    /// Whether a frame holds exactly the bytes of its pixels.
    pub open spec fn is_full(&self) -> bool {
        self.data@.len() == self.width * self.height * 4
    }
}

/// What is captured.
#[derive(Debug)]
pub enum Target {
    Monitor(usize),
    Window(String),
    Combined,
}

impl Clone for Target {
    fn clone(&self) -> (r: Self)
        ensures
            r == *self,
    {
        match self {
            Target::Monitor(i) => Target::Monitor(*i),
            Target::Window(title) => Target::Window(title.clone()),
            Target::Combined => Target::Combined,
        }
    }
}

/// A rectangle on the desktop, without its right and bottom edges.
#[derive(Clone, Copy, Debug, PartialEq, Eq, Structural)]
pub struct Rect {
    pub left: i32,
    pub top: i32,
    pub right: i32,
    pub bottom: i32,
}

impl Rect {
    /// Whether width and height can be told in thirty-two bits.
    pub open spec fn is_measurable(self) -> bool {
        &&& i32::MIN <= self.right - self.left <= i32::MAX
        &&& i32::MIN <= self.bottom - self.top <= i32::MAX
    }
}

/// A distance as an unsigned number; one below zero wraps around.
pub open spec fn span(from: i32, to: i32) -> u32 {
    if from <= to {
        (to - from) as u32
    } else {
        (to - from + 0x1_0000_0000) as u32
    }
}

/// A distance as an unsigned number; one below zero wraps around.
pub fn span_of(from: i32, to: i32) -> (r: u32)
    requires
        i32::MIN <= to - from <= i32::MAX,
    ensures
        r == span(from, to),
{
    let d: i32 = to - from;
    let r: u32 = #[verifier::truncate] (d as u32);
    assert(d >= 0 ==> r == d) by (bit_vector)
        requires
            r == d as u32,
    ;
    assert(d < 0 ==> r == d + 0x1_0000_0000) by (bit_vector)
        requires
            r == d as u32,
    ;
    r
}

/// A call of the graphics system that can fail.
#[derive(Clone, Copy, Debug, PartialEq, Eq, Structural)]
pub enum CaptureCall {
    CreateDevice,
    CastDevice,
    GetParent,
    CastOutput,
    DuplicateOutput,
    CreateTexture,
    AcquireFrame,
    CastTexture,
    MapTexture,
}

/// An object that the graphics system left out.
#[derive(Clone, Copy, Debug, PartialEq, Eq, Structural)]
pub enum MissingObject {
    Device,
    Context,
    Texture,
}

/// Why nothing was captured.
#[derive(Debug)]
pub enum CaptureError {
    ThreadDropped,
    MonitorNotFound(usize),
    OutputNotFound,
    WindowNotFound(String),
    ZeroCrop,
    AccessLost,
    Unavailable,
    CallFailed(CaptureCall, String),
    Missing(MissingObject),
}

impl CaptureCall {
    /// How a failure of the call is announced.
    pub open spec fn text(self) -> Seq<char> {
        match self {
            CaptureCall::CreateDevice => "D3D11CreateDevice failed: "@,
            CaptureCall::CastDevice => "cast to IDXGIDevice failed: "@,
            CaptureCall::GetParent => "GetParent(IDXGIAdapter) failed: "@,
            CaptureCall::CastOutput => "cast to IDXGIOutput1 failed: "@,
            CaptureCall::DuplicateOutput => "DuplicateOutput failed: "@,
            CaptureCall::CreateTexture => "CreateTexture2D (staging) failed: "@,
            CaptureCall::AcquireFrame => "AcquireNextFrame failed: "@,
            CaptureCall::CastTexture => "cast to ID3D11Texture2D failed: "@,
            CaptureCall::MapTexture => "Map staging texture failed: "@,
        }
    }

    fn announce(&self) -> (r: &'static str)
        ensures
            r@ == self.text(),
    {
        match self {
            CaptureCall::CreateDevice => "D3D11CreateDevice failed: ",
            CaptureCall::CastDevice => "cast to IDXGIDevice failed: ",
            CaptureCall::GetParent => "GetParent(IDXGIAdapter) failed: ",
            CaptureCall::CastOutput => "cast to IDXGIOutput1 failed: ",
            CaptureCall::DuplicateOutput => "DuplicateOutput failed: ",
            CaptureCall::CreateTexture => "CreateTexture2D (staging) failed: ",
            CaptureCall::AcquireFrame => "AcquireNextFrame failed: ",
            CaptureCall::CastTexture => "cast to ID3D11Texture2D failed: ",
            CaptureCall::MapTexture => "Map staging texture failed: ",
        }
    }
}

impl CaptureError {
    /// What the error says.
    pub open spec fn text(self) -> Seq<char> {
        match self {
            CaptureError::ThreadDropped => "capture thread dropped"@,
            CaptureError::MonitorNotFound(i) => "monitor index "@ + decimal(i as nat)
                + " not found"@,
            CaptureError::OutputNotFound => "output for monitor not found"@,
            CaptureError::WindowNotFound(title) => "window not found: "@ + title@,
            CaptureError::ZeroCrop => "window crop has zero size"@,
            CaptureError::AccessLost =>
                "AcquireNextFrame: access lost, capturer must be recreated"@,
            CaptureError::Unavailable => "DXGI capturer unavailable"@,
            CaptureError::CallFailed(call, detail) => call.text() + detail@,
            CaptureError::Missing(MissingObject::Device) =>
                "D3D11CreateDevice returned null device"@,
            CaptureError::Missing(MissingObject::Context) =>
                "D3D11CreateDevice returned null context"@,
            CaptureError::Missing(MissingObject::Texture) => "CreateTexture2D returned null"@,
        }
    }

    /// What the error says.
    pub fn message(&self) -> (r: String)
        ensures
            r@ == self.text(),
    {
        match self {
            CaptureError::ThreadDropped => "capture thread dropped".to_owned(),
            CaptureError::MonitorNotFound(i) => {
                let mut s: String = "monitor index ".to_owned();
                push_decimal(&mut s, *i as u64);
                s.append(" not found");
                s
            },
            CaptureError::OutputNotFound => "output for monitor not found".to_owned(),
            CaptureError::WindowNotFound(title) => {
                let mut s: String = "window not found: ".to_owned();
                s.append(title.as_str());
                s
            },
            CaptureError::ZeroCrop => "window crop has zero size".to_owned(),
            CaptureError::AccessLost =>
                "AcquireNextFrame: access lost, capturer must be recreated".to_owned(),
            CaptureError::Unavailable => "DXGI capturer unavailable".to_owned(),
            CaptureError::CallFailed(call, detail) => {
                let mut s: String = call.announce().to_owned();
                s.append(detail.as_str());
                s
            },
            CaptureError::Missing(MissingObject::Device) =>
                "D3D11CreateDevice returned null device".to_owned(),
            CaptureError::Missing(MissingObject::Context) =>
                "D3D11CreateDevice returned null context".to_owned(),
            CaptureError::Missing(MissingObject::Texture) =>
                "CreateTexture2D returned null".to_owned(),
        }
    }
}

/// A request to the capture thread.
pub enum GrabRequest {
    Grab,
    SetTarget(Target),
}

/// How a request for a frame and the answer to it went.
pub enum GrabExchange {
    /// The request could not be handed over.
    NotSent,
    /// No answer came.
    NotAnswered,
    /// The capture thread answered.
    Answered(Result<Option<Frame>, CaptureError>),
}

/// What comes of a request for a frame: the answer, and an error where the
/// capture thread is gone.
pub open spec fn answer_of(exchange: GrabExchange) -> Result<Option<Frame>, CaptureError> {
    match exchange {
        GrabExchange::Answered(answer) => answer,
        _ => Err(CaptureError::ThreadDropped),
    }
}

/// The capture as the rest of the program sees it.
pub struct Capture {
    current_target: Target,
}

/// A monitor.
#[derive(Debug)]
pub struct MonitorInfo {
    pub index: usize,
    pub name: String,
    pub width: u32,
    pub height: u32,
    pub x: i32,
    pub y: i32,
    pub is_primary: bool,
}

/// A window.
#[derive(Debug)]
pub struct WindowInfo {
    pub title: String,
    pub width: u32,
    pub height: u32,
    pub minimized: bool,
}

impl Clone for MonitorInfo {
    fn clone(&self) -> (r: Self)
        ensures
            r == *self,
    {
        MonitorInfo {
            index: self.index,
            name: self.name.clone(),
            width: self.width,
            height: self.height,
            x: self.x,
            y: self.y,
            is_primary: self.is_primary,
        }
    }
}

impl Clone for WindowInfo {
    fn clone(&self) -> (r: Self)
        ensures
            r == *self,
    {
        WindowInfo {
            title: self.title.clone(),
            width: self.width,
            height: self.height,
            minimized: self.minimized,
        }
    }
}

/// A monitor as the system reports it.
pub struct RawMonitor {
    pub rect: Rect,
    pub device: Vec<u16>,
}

/// A window as the system reports it.
pub struct RawWindow {
    pub visible: bool,
    pub text_length: i32,
    pub text: Vec<u16>,
    pub rect: Rect,
    pub minimized: bool,
}

impl RawWindow {
    /// The title of a window.
    pub open spec fn title(self) -> Seq<char> {
        lossy_text(before_zero(self.text@))
    }
}

/// What is there of a row in which some things may be missing.
pub open spec fn present<T>(entries: Seq<Option<T>>) -> Seq<T>
    decreases entries.len(),
{
    if entries.len() == 0 {
        Seq::empty()
    } else {
        match entries.last() {
            Some(e) => present(entries.drop_last()).push(e),
            None => present(entries.drop_last()),
        }
    }
}

fn keep_present<T>(entries: Vec<Option<T>>) -> (r: Vec<T>)
    ensures
        r@ == present(entries@),
{
    let ghost all = entries@;
    let mut rest: Vec<Option<T>> = entries;
    let mut turned: Vec<T> = Vec::new();
    // The entries are taken from the end, so they come out turned around.
    while rest.len() > 0
        invariant
            present(all) == present(rest@) + turned@.reverse(),
        decreases rest@.len(),
    {
        let ghost before = rest@;
        match rest.pop() {
            Some(Some(e)) => {
                turned.push(e);
            },
            _ => {},
        }
        assert(rest@ == before.drop_last());
        assert(present(all) =~= present(rest@) + turned@.reverse());
    }
    assert(present(all) =~= turned@.reverse());
    let ghost whole = turned@.reverse();
    let mut out: Vec<T> = Vec::new();
    while turned.len() > 0
        invariant
            whole == out@ + turned@.reverse(),
        decreases turned@.len(),
    {
        let ghost before = turned@;
        match turned.pop() {
            Some(e) => {
                out.push(e);
            },
            None => {},
        }
        assert(whole =~= out@ + turned@.reverse());
    }
    assert(whole =~= out@);
    out
}

/// Where monitors lie.
pub open spec fn monitor_places(raws: Seq<RawMonitor>) -> Seq<Place> {
    raws.map_values(|m: RawMonitor| Place { x: m.rect.left, y: m.rect.top })
}

/// Whether `m` describes the reported monitor `raw` as number `i`.
pub open spec fn describes_monitor(m: MonitorInfo, raw: RawMonitor, i: int) -> bool {
    &&& m.index == i
    &&& m.name@ == lossy_text(before_zero(raw.device@))
    &&& m.width == span(raw.rect.left, raw.rect.right)
    &&& m.height == span(raw.rect.top, raw.rect.bottom)
    &&& m.x == raw.rect.left
    &&& m.y == raw.rect.top
    &&& m.is_primary == (raw.rect.left == 0 && raw.rect.top == 0)
}

/// Whether `list` holds the reported monitors from left to right and from top
/// to bottom, numbered in this order.
pub open spec fn lists_monitors(list: Seq<MonitorInfo>, raws: Seq<RawMonitor>) -> bool {
    &&& list.len() == raws.len()
    &&& exists|order: Seq<usize>|
        {
            &&& #[trigger] is_stable_order(monitor_places(raws), order)
            &&& forall|i: int|
                0 <= i < list.len() ==> describes_monitor(
                    #[trigger] list[i],
                    raws[order[i] as int],
                    i,
                )
        }
}

/// Whether a window is offered for capture: it shows and has a title.
pub open spec fn is_offered(w: RawWindow) -> bool {
    w.visible && w.text_length != 0 && w.title().len() > 0
}

/// The windows offered for capture, in the order of the report.
pub open spec fn offered(raws: Seq<RawWindow>) -> Seq<RawWindow> {
    raws.filter(|w: RawWindow| is_offered(w))
}

/// Whether `w` describes the reported window `raw`.
pub open spec fn describes_window(w: WindowInfo, raw: RawWindow) -> bool {
    &&& w.title@ == raw.title()
    &&& w.width == span(raw.rect.left, raw.rect.right)
    &&& w.height == span(raw.rect.top, raw.rect.bottom)
    &&& w.minimized == raw.minimized
}

/// Whether `list` holds the windows `raws` by title, and in their order among
/// equal titles.
pub open spec fn lists_windows(list: Seq<WindowInfo>, raws: Seq<RawWindow>) -> bool {
    &&& list.len() == raws.len()
    &&& exists|order: Seq<usize>, keys: Seq<Title>|
        {
            &&& keys.len() == raws.len()
            &&& forall|i: int|
                0 <= i < raws.len() ==> (#[trigger] keys[i]).chars@ == raws[i].title()
            &&& #[trigger] is_stable_order(keys, order)
            &&& forall|i: int|
                0 <= i < list.len() ==> describes_window(
                    #[trigger] list[i],
                    raws[order[i] as int],
                )
        }
}

/// Where rectangles lie.
pub open spec fn rect_places(rects: Seq<Rect>) -> Seq<Place> {
    rects.map_values(|r: Rect| Place { x: r.left, y: r.top })
}

/// Whether `r` is rectangle number `index` from left to right and top to
/// bottom, provided that there is one and that it is not empty.
pub open spec fn is_screen_at(rects: Seq<Rect>, index: int, r: Option<Rect>) -> bool {
    exists|order: Seq<usize>|
        {
            &&& #[trigger] is_stable_order(rect_places(rects), order)
            &&& r == (if index < rects.len() {
                let rc = rects[order[index] as int];
                if rc.left < rc.right && rc.top < rc.bottom {
                    Some(rc)
                } else {
                    None
                }
            } else {
                None
            })
        }
}

/// Whether `r` is a picture of monitor number `index` made from its bitmap, and
/// none without such a monitor, for an empty one and without a bitmap.
pub open spec fn shows_screen(
    rects: Seq<Rect>,
    index: int,
    bits: Option<Vec<u8>>,
    r: Option<(Vec<u8>, u32, u32)>,
) -> bool {
    exists|screen: Option<Rect>|
        {
            &&& #[trigger] is_screen_at(rects, index, screen)
            &&& match (screen, bits) {
                (Some(rc), Some(b)) => {
                    &&& r matches Some(p)
                    &&& p.0@ == swapped(b@)
                    &&& p.1 == rc.right - rc.left
                    &&& p.2 == rc.bottom - rc.top
                    &&& p.0@.len() == 4 * p.1 * p.2
                },
                _ => r is None,
            }
        }
}

/// Where reported monitors lie on the desktop.
pub open spec fn monitor_rects(raws: Seq<RawMonitor>) -> Seq<Rect> {
    raws.map_values(|m: RawMonitor| m.rect)
}

/// Pictures of monitors are numbered as the list of monitors is: a picture has
/// the size that the list gives under its number, it is not empty and holds all
/// its pixels, and there is none under a number that the list does not have.
pub proof fn pictures_are_numbered_as_monitors(
    list: Seq<MonitorInfo>,
    raws: Seq<RawMonitor>,
    index: int,
    bits: Option<Vec<u8>>,
    r: Option<(Vec<u8>, u32, u32)>,
)
    requires
        0 <= index,
        lists_monitors(list, raws),
        shows_screen(monitor_rects(raws), index, bits, r),
    ensures
        index >= list.len() ==> r is None,
        r matches Some(p) ==> {
            &&& p.1 == list[index].width
            &&& p.2 == list[index].height
            &&& p.1 > 0
            &&& p.2 > 0
            &&& p.0@.len() == 4 * p.1 * p.2
        },
{
    let rects = monitor_rects(raws);
    let screen = choose|screen: Option<Rect>|
        {
            &&& #[trigger] is_screen_at(rects, index, screen)
            &&& match (screen, bits) {
                (Some(rc), Some(b)) => {
                    &&& r matches Some(p)
                    &&& p.0@ == swapped(b@)
                    &&& p.1 == rc.right - rc.left
                    &&& p.2 == rc.bottom - rc.top
                    &&& p.0@.len() == 4 * p.1 * p.2
                },
                _ => r is None,
            }
        };
    screens_are_numbered_as_monitors(list, raws, index, screen);
}

/// Screens are numbered as the list of monitors is: the screen under a number
/// has the size that the list gives, and there is none under a number that the
/// list does not have.
pub proof fn screens_are_numbered_as_monitors(
    list: Seq<MonitorInfo>,
    raws: Seq<RawMonitor>,
    index: int,
    screen: Option<Rect>,
)
    requires
        0 <= index,
        lists_monitors(list, raws),
        is_screen_at(monitor_rects(raws), index, screen),
    ensures
        index >= list.len() ==> screen is None,
        screen matches Some(rc) ==> {
            &&& list[index].x == rc.left
            &&& list[index].y == rc.top
            &&& list[index].width == rc.right - rc.left
            &&& list[index].height == rc.bottom - rc.top
            &&& list[index].width > 0
            &&& list[index].height > 0
        },
{
    let rects = monitor_rects(raws);
    assert(rect_places(rects) =~= monitor_places(raws));
    let listed = choose|order: Seq<usize>|
        {
            &&& #[trigger] is_stable_order(monitor_places(raws), order)
            &&& forall|i: int|
                0 <= i < list.len() ==> describes_monitor(
                    #[trigger] list[i],
                    raws[order[i] as int],
                    i,
                )
        };
    let shown = choose|order: Seq<usize>|
        {
            &&& #[trigger] is_stable_order(rect_places(rects), order)
            &&& screen == (if index < rects.len() {
                let rc = rects[order[index] as int];
                if rc.left < rc.right && rc.top < rc.bottom {
                    Some(rc)
                } else {
                    None
                }
            } else {
                None
            })
        };
    stable_order_is_unique(monitor_places(raws), listed, shown);
    if index < list.len() {
        assert(describes_monitor(list[index], raws[listed[index] as int], index));
    }
}

/// The part of the desktop that monitor number `index` shows.
pub fn screen_at(rects: &Vec<Rect>, index: usize) -> (r: Option<Rect>)
    requires
        forall|i: int| 0 <= i < rects@.len() ==> (#[trigger] rects@[i]).is_measurable(),
    ensures
        is_screen_at(rects@, index as int, r),
{
    let mut keys: Vec<Place> = Vec::new();
    let mut i: usize = 0;
    while i < rects.len()
        invariant
            i <= rects@.len(),
            keys@ == rect_places(rects@).take(i as int),
        decreases rects@.len() - i,
    {
        assert(rect_places(rects@).take(i + 1) == rect_places(rects@).take(i as int).push(
            rect_places(rects@)[i as int],
        ));
        keys.push(Place { x: rects[i].left, y: rects[i].top });
        i = i + 1;
    }
    assert(rect_places(rects@).take(rects@.len() as int) == rect_places(rects@));
    let order: Vec<usize> = stable_order(&keys);
    assert(is_stable_order(rect_places(rects@), order@));
    if index >= rects.len() {
        return None;
    }
    let rc: Rect = rects[order[index]];
    let w: i32 = rc.right - rc.left;
    let h: i32 = rc.bottom - rc.top;
    if w <= 0 || h <= 0 {
        None
    } else {
        Some(rc)
    }
}

/// How many bytes the bitmap of a screen takes.
pub fn bitmap_bytes(screen: Rect) -> (r: usize)
    requires
        screen.left < screen.right,
        screen.top < screen.bottom,
        (screen.right - screen.left) * (screen.bottom - screen.top) * 4 <= i32::MAX,
    ensures
        r == (screen.right - screen.left) * (screen.bottom - screen.top) * 4,
{
    let w: i64 = screen.right as i64 - screen.left as i64;
    let h: i64 = screen.bottom as i64 - screen.top as i64;
    assert(0 < w * h) by (nonlinear_arith)
        requires
            0 < w,
            0 < h,
    ;
    (w * h * 4) as usize
}

/// Whether a bitmap holds exactly the pixels of a screen, in four bytes each.
pub open spec fn is_bitmap_of(bits: Seq<u8>, screen: Rect) -> bool {
    bits.len() == 4 * (screen.right - screen.left) * (screen.bottom - screen.top)
}

/// Turns the bitmap of a screen into a picture. Without a bitmap there is none.
pub fn capture_monitor_gdi(screen: Rect, bits: Option<Vec<u8>>) -> (r: Option<(Vec<u8>, u32, u32)>)
    requires
        screen.is_measurable(),
        screen.left < screen.right,
        screen.top < screen.bottom,
        bits matches Some(b) ==> is_bitmap_of(b@, screen),
    ensures
        match bits {
            Some(b) => r matches Some(p) && p.0@ == swapped(b@) && p.1 == screen.right - screen.left
                && p.2 == screen.bottom - screen.top && p.0@.len() == 4 * p.1 * p.2,
            None => r is None,
        },
{
    match bits {
        Some(b) => {
            let mut data: Vec<u8> = b;
            swap_red_blue(&mut data);
            Some(
                (
                    data,
                    (screen.right - screen.left) as u32,
                    (screen.bottom - screen.top) as u32,
                ),
            )
        },
        None => None,
    }
}

impl Capture {
    /// What is captured now.
    pub closed spec fn current(&self) -> Target {
        self.current_target
    }

    /// A capture of a target.
    pub fn new(target: Target) -> (r: Self)
        ensures
            r.current() == target,
    {
        Capture { current_target: target }
    }

    /// Turns to another target; gives the request for the capture thread.
    pub fn set_target(&mut self, target: Target) -> (r: GrabRequest)
        ensures
            final(self).current() == target,
            r == GrabRequest::SetTarget(target),
    {
        self.current_target = target.clone();
        GrabRequest::SetTarget(target)
    }

    /// What is captured now.
    pub fn target(&self) -> (r: Target)
        ensures
            r == self.current(),
    {
        self.current_target.clone()
    }

    /// The frame that the capture thread answered with. A thread that is gone
    /// is an error.
    pub fn grab(&self, exchange: GrabExchange) -> (r: Result<Option<Frame>, CaptureError>)
        ensures
            r == answer_of(exchange),
    {
        match exchange {
            GrabExchange::NotSent => Err(CaptureError::ThreadDropped),
            GrabExchange::NotAnswered => Err(CaptureError::ThreadDropped),
            GrabExchange::Answered(answer) => answer,
        }
    }

    /// The monitors, from left to right and from top to bottom.
    pub fn list_monitors(raws: Vec<Option<RawMonitor>>) -> (r: Result<
        Vec<MonitorInfo>,
        CaptureError,
    >)
        requires
            forall|i: int|
                0 <= i < present(raws@).len() ==> (#[trigger] present(
                    raws@,
                )[i]).rect.is_measurable(),
        ensures
            r matches Ok(list) && lists_monitors(list@, present(raws@)),
    {
        let raws: Vec<RawMonitor> = keep_present(raws);
        let mut keys: Vec<Place> = Vec::new();
        let mut i: usize = 0;
        while i < raws.len()
            invariant
                i <= raws@.len(),
                keys@ == monitor_places(raws@).take(i as int),
            decreases raws@.len() - i,
        {
            assert(monitor_places(raws@).take(i + 1) == monitor_places(raws@).take(i as int).push(
                monitor_places(raws@)[i as int],
            ));
            keys.push(Place { x: raws[i].rect.left, y: raws[i].rect.top });
            i = i + 1;
        }
        assert(monitor_places(raws@).take(raws@.len() as int) == monitor_places(raws@));
        let order: Vec<usize> = stable_order(&keys);
        let mut list: Vec<MonitorInfo> = Vec::new();
        let mut k: usize = 0;
        while k < order.len()
            invariant
                k <= order@.len(),
                order@.len() == raws@.len(),
                is_stable_order(monitor_places(raws@), order@),
                forall|i: int|
                    0 <= i < raws@.len() ==> (#[trigger] raws@[i]).rect.is_measurable(),
                list@.len() == k,
                forall|i: int|
                    0 <= i < k ==> describes_monitor(
                        #[trigger] list@[i],
                        raws@[order@[i] as int],
                        i,
                    ),
            decreases order@.len() - k,
        {
            let raw: &RawMonitor = &raws[order[k]];
            let rc: Rect = raw.rect;
            list.push(
                MonitorInfo {
                    index: k,
                    name: text_from_wide(raw.device.as_slice()),
                    width: span_of(rc.left, rc.right),
                    height: span_of(rc.top, rc.bottom),
                    x: rc.left,
                    y: rc.top,
                    is_primary: rc.left == 0 && rc.top == 0,
                },
            );
            k = k + 1;
        }
        Ok(list)
    }

    /// The windows that show and have a title, by title.
    pub fn list_windows(raws: &Vec<RawWindow>) -> (r: Result<Vec<WindowInfo>, CaptureError>)
        requires
            forall|i: int|
                0 <= i < raws@.len() && is_offered(raws@[i]) ==> (#[trigger]
                raws@[i]).rect.is_measurable(),
        ensures
            r matches Ok(list) && lists_windows(list@, offered(raws@)),
    {
        let mut keys: Vec<Title> = Vec::new();
        let mut found: Vec<WindowInfo> = Vec::new();
        let mut i: usize = 0;
        assert(offered(raws@.take(0)) =~= Seq::<RawWindow>::empty()) by {
            reveal_with_fuel(Seq::filter, 1);
        }
        while i < raws.len()
            invariant
                i <= raws@.len(),
                forall|i: int|
                    0 <= i < raws@.len() && is_offered(raws@[i]) ==> (#[trigger]
                    raws@[i]).rect.is_measurable(),
                found@.len() == offered(raws@.take(i as int)).len(),
                keys@.len() == found@.len(),
                forall|j: int|
                    0 <= j < keys@.len() ==> (#[trigger] keys@[j]).chars@ == offered(
                        raws@.take(i as int),
                    )[j].title(),
                forall|j: int|
                    0 <= j < found@.len() ==> describes_window(
                        #[trigger] found@[j],
                        offered(raws@.take(i as int))[j],
                    ),
            decreases raws@.len() - i,
        {
            let ghost before = offered(raws@.take(i as int));
            assert(raws@.take(i + 1).drop_last() == raws@.take(i as int));
            assert(raws@.take(i + 1).last() == raws@[i as int]);
            assert(offered(raws@.take(i + 1)) == (if is_offered(raws@[i as int]) {
                before.push(raws@[i as int])
            } else {
                before
            })) by {
                reveal_with_fuel(Seq::filter, 1);
            }
            let raw: &RawWindow = &raws[i];
            if raw.visible && raw.text_length != 0 {
                let title: String = text_from_wide(raw.text.as_slice());
                if !title.as_str().is_empty() {
                    keys.push(Title { chars: chars_of(title.as_str()) });
                    found.push(
                        WindowInfo {
                            title: title,
                            width: span_of(raw.rect.left, raw.rect.right),
                            height: span_of(raw.rect.top, raw.rect.bottom),
                            minimized: raw.minimized,
                        },
                    );
                }
            }
            i = i + 1;
        }
        assert(raws@.take(raws@.len() as int) == raws@);
        let ghost kept = offered(raws@);
        let order: Vec<usize> = stable_order(&keys);
        let mut list: Vec<WindowInfo> = Vec::new();
        let mut k: usize = 0;
        while k < order.len()
            invariant
                k <= order@.len(),
                order@.len() == found@.len() == kept.len() == keys@.len(),
                is_stable_order(keys@, order@),
                list@.len() == k,
                forall|j: int| 0 <= j < found@.len() ==> describes_window(#[trigger] found@[j], kept[j]),
                forall|j: int|
                    0 <= j < k ==> describes_window(#[trigger] list@[j], kept[order@[j] as int]),
            decreases order@.len() - k,
        {
            let w: &WindowInfo = &found[order[k]];
            list.push(w.clone());
            k = k + 1;
        }
        Ok(list)
    }

    /// A picture of monitor number `index`, made from its bitmap. There is none
    /// without such a monitor, for an empty one and without a bitmap.
    pub fn capture_monitor_screen(
        index: usize,
        rects: &Vec<Rect>,
        bits: Option<Vec<u8>>,
    ) -> (r: Option<(Vec<u8>, u32, u32)>)
        requires
            forall|i: int| 0 <= i < rects@.len() ==> (#[trigger] rects@[i]).is_measurable(),
            bits matches Some(b) ==> forall|rc: Rect| #[trigger]
                is_screen_at(rects@, index as int, Some(rc)) ==> is_bitmap_of(b@, rc),
        ensures
            shows_screen(rects@, index as int, bits, r),
    {
        let screen: Option<Rect> = screen_at(rects, index);
        assert(is_screen_at(rects@, index as int, screen));
        match screen {
            Some(rc) => {
                assert(rc.is_measurable());
                capture_monitor_gdi(rc, bits)
            },
            None => None,
        }
    }
}

/// A use of a capture.
pub enum CaptureUse {
    /// It was turned to a target, with this request for the capture thread.
    SetTarget(Target, GrabRequest),
    /// It was asked for the target, and gave this one.
    AskTarget(Target),
    /// It was asked for a frame, and this came of it.
    Grab(GrabExchange, Result<Option<Frame>, CaptureError>),
}

/// What a use does to a capture, and what it gives.
pub open spec fn used(before: Capture, u: CaptureUse, after: Capture) -> bool {
    match u {
        CaptureUse::SetTarget(target, request) => after.current() == target && request
            == GrabRequest::SetTarget(target),
        CaptureUse::AskTarget(target) => target == before.current() && after == before,
        CaptureUse::Grab(exchange, answer) => answer == answer_of(exchange) && after == before,
    }
}

/// Whether uses lead from each capture to the next.
pub open spec fn all_used(captures: Seq<Capture>, uses: Seq<CaptureUse>) -> bool {
    &&& captures.len() == uses.len() + 1
    &&& forall|i: int|
        0 <= i < uses.len() ==> used(captures[i], #[trigger] uses[i], captures[i + 1])
}

/// The target that was set last, or else the first one.
pub open spec fn last_target(first: Target, uses: Seq<CaptureUse>) -> Target
    decreases uses.len(),
{
    if uses.len() == 0 {
        first
    } else {
        match uses.last() {
            CaptureUse::SetTarget(target, _) => target,
            _ => last_target(first, uses.drop_last()),
        }
    }
}

/// However a capture is used, its target is the one that was set last, or else
/// the one that it was made for: asking for it, or for frames, changes nothing
/// in it, whatever comes of that.
pub proof fn last_target_stays(captures: Seq<Capture>, uses: Seq<CaptureUse>)
    requires
        all_used(captures, uses),
    ensures
        captures.last().current() == last_target(captures[0].current(), uses),
        forall|target: Target, later: Capture|
            #![trigger used(captures.last(), CaptureUse::AskTarget(target), later)]
            used(captures.last(), CaptureUse::AskTarget(target), later) ==> target == last_target(
                captures[0].current(),
                uses,
            ),
    decreases uses.len(),
{
    if uses.len() > 0 {
        let n = uses.len() - 1;
        let fewer = uses.drop_last();
        let earlier = captures.drop_last();
        assert forall|i: int| 0 <= i < fewer.len() implies used(
            earlier[i],
            #[trigger] fewer[i],
            earlier[i + 1],
        ) by {
            assert(used(captures[i], uses[i], captures[i + 1]));
        }
        last_target_stays(earlier, fewer);
        assert(used(captures[n], uses[n], captures[n + 1]));
        assert(earlier.last() == captures[n]);
    }
}

/// A picture of a screen has the screen's size, and every pixel of it is the one
/// of the bitmap with red and blue exchanged; without a bitmap there is none.
pub proof fn screen_pictures_have_red_first(
    screen: Rect,
    bits: Option<Vec<u8>>,
    r: Option<(Vec<u8>, u32, u32)>,
    p: int,
)
    requires
        call_ensures(capture_monitor_gdi, (screen, bits), r),
    ensures
        r is Some <==> bits is Some,
        r matches Some(picture) ==> {
            let b = bits->Some_0@;
            &&& picture.1 == screen.right - screen.left
            &&& picture.2 == screen.bottom - screen.top
            &&& picture.0@.len() == b.len()
            &&& 0 <= p && 4 * p + 4 <= b.len() ==> {
                &&& picture.0@[4 * p] == b[4 * p + 2]
                &&& picture.0@[4 * p + 1] == b[4 * p + 1]
                &&& picture.0@[4 * p + 2] == b[4 * p]
                &&& picture.0@[4 * p + 3] == b[4 * p + 3]
            }
        },
{
}

/// A capture captures what it was made for until it is told otherwise, and then
/// what it was told last; the capture thread is told the same.
pub proof fn captures_keep_their_target(
    first: Target,
    made: Capture,
    capture: &&mut Capture,
    target: Target,
    request: GrabRequest,
    asked: Target,
    asked_first: Target,
)
    requires
        call_ensures(Capture::new, (first,), made),
        call_ensures(Capture::target, (&made,), asked_first),
        call_ensures(Capture::set_target, (*capture, target), request),
        call_ensures(Capture::target, (&*final(*capture),), asked),
    ensures
        asked_first == first,
        asked == target,
        request == GrabRequest::SetTarget(target),
{
}

/// What the capture thread answered is given as it is, be it a frame, none or a
/// failure; where it did not answer it is gone.
pub proof fn answers_are_given_as_they_are(
    capture: Capture,
    exchange: GrabExchange,
    r: Result<Option<Frame>, CaptureError>,
)
    requires
        call_ensures(Capture::grab, (&capture, exchange), r),
    ensures
        exchange matches GrabExchange::Answered(answer) ==> r == answer,
        exchange !is Answered ==> r == Err::<Option<Frame>, CaptureError>(
            CaptureError::ThreadDropped,
        ),
{
}

proof fn lemma_present_is_there<T>(entries: Seq<Option<T>>)
    ensures
        forall|i: int|
            0 <= i < present(entries).len() ==> exists|k: int|
                0 <= k < entries.len() && #[trigger] entries[k] == Some(
                    #[trigger] present(entries)[i],
                ),
        forall|k: int|
            0 <= k < entries.len() && #[trigger] entries[k] is Some ==> exists|i: int|
                0 <= i < present(entries).len() && entries[k] == Some(
                    #[trigger] present(entries)[i],
                ),
    decreases entries.len(),
{
    if entries.len() > 0 {
        let fewer = entries.drop_last();
        let n = entries.len() - 1;
        lemma_present_is_there(fewer);
        assert forall|i: int| 0 <= i < present(entries).len() implies exists|k: int|
            0 <= k < entries.len() && #[trigger] entries[k] == Some(
                #[trigger] present(entries)[i],
            ) by {
            if i < present(fewer).len() {
                let k = choose|k: int|
                    0 <= k < fewer.len() && #[trigger] fewer[k] == Some(present(fewer)[i]);
                assert(entries[k] == Some(present(entries)[i]));
            } else {
                assert(entries[n] == Some(present(entries)[i]));
            }
        }
        assert forall|k: int| 0 <= k < entries.len() && #[trigger] entries[k] is Some implies exists|
            i: int,
        |
            0 <= i < present(entries).len() && entries[k] == Some(#[trigger] present(entries)[i]) by {
            if k < n {
                assert(fewer[k] == entries[k]);
                let i = choose|i: int|
                    0 <= i < present(fewer).len() && fewer[k] == Some(#[trigger] present(fewer)[i]);
                assert(present(entries)[i] == present(fewer)[i]);
            } else {
                assert(present(entries)[present(fewer).len() as int] == entries[n]->Some_0);
            }
        }
    }
}

/// Whether a monitor of the list is the reported one.
pub open spec fn is_monitor(m: MonitorInfo, raw: RawMonitor) -> bool {
    &&& m.x == raw.rect.left
    &&& m.y == raw.rect.top
    &&& raw.rect.left <= raw.rect.right ==> m.width == raw.rect.right - raw.rect.left
    &&& raw.rect.top <= raw.rect.bottom ==> m.height == raw.rect.bottom - raw.rect.top
    &&& m.name@ == lossy_text(before_zero(raw.device@))
    &&& m.is_primary <==> raw.rect.left == 0 && raw.rect.top == 0
}

/// The list of monitors holds exactly the reported ones, each under its number
/// in the list, from left to right and, where they are equally far left, from
/// top to bottom.
pub proof fn monitors_are_listed_in_order(
    raws: Vec<Option<RawMonitor>>,
    r: Result<Vec<MonitorInfo>, CaptureError>,
    i: int,
    j: int,
    k: int,
)
    requires
        call_ensures(Capture::list_monitors, (raws,), r),
    ensures
        r is Ok,
        r matches Ok(list) ==> {
            &&& 0 <= i < list@.len() ==> list@[i].index == i && exists|k: int|
                0 <= k < raws@.len() && (#[trigger] raws@[k] matches Some(raw) && is_monitor(
                    list@[i],
                    raw,
                ))
            &&& 0 <= i < j < list@.len() ==> list@[i].x < list@[j].x || list@[i].x == list@[j].x
                && list@[i].y <= list@[j].y
            &&& 0 <= k < raws@.len() && raws@[k] is Some ==> exists|i: int|
                0 <= i < list@.len() && is_monitor(#[trigger] list@[i], raws@[k]->Some_0)
        },
{
    let list = r->Ok_0@;
    let there = present(raws@);
    assert(lists_monitors(list, there));
    let keys = monitor_places(there);
    let order = choose|order: Seq<usize>|
        {
            &&& #[trigger] is_stable_order(keys, order)
            &&& forall|i: int|
                0 <= i < list.len() ==> describes_monitor(
                    #[trigger] list[i],
                    there[order[i] as int],
                    i,
                )
        };
    lemma_present_is_there(raws@);
    if 0 <= i < list.len() {
        assert(describes_monitor(list[i], there[order[i] as int], i));
        let raw = there[order[i] as int];
        let at = choose|at: int| 0 <= at < raws@.len() && #[trigger] raws@[at] == Some(raw);
        assert(is_monitor(list[i], raw));
    }
    if 0 <= i < j < list.len() {
        assert(describes_monitor(list[i], there[order[i] as int], i));
        assert(describes_monitor(list[j], there[order[j] as int], j));
        assert(crate::order::goes_before(keys, order[i] as int, order[j] as int));
    }
    if 0 <= k < raws@.len() && raws@[k] is Some {
        let p = choose|p: int| 0 <= p < there.len() && raws@[k] == Some(#[trigger] there[p]);
        assert(r->Ok_0.len() == list.len());
        assert(order.contains(p as usize));
        let at = choose|at: int| 0 <= at < order.len() && order[at] == p as usize;
        assert(describes_monitor(list[at], there[order[at] as int], at));
        assert(is_monitor(list[at], raws@[k]->Some_0));
    }
}

proof fn lemma_offered_is_there(raws: Seq<RawWindow>)
    ensures
        forall|i: int|
            0 <= i < offered(raws).len() ==> is_offered(#[trigger] offered(raws)[i])
                && raws.contains(offered(raws)[i]),
        forall|k: int|
            0 <= k < raws.len() && is_offered(#[trigger] raws[k]) ==> offered(raws).contains(
                raws[k],
            ),
    decreases raws.len(),
{
    reveal_with_fuel(Seq::filter, 1);
    if raws.len() > 0 {
        let fewer = raws.drop_last();
        lemma_offered_is_there(fewer);
        assert forall|i: int| 0 <= i < offered(raws).len() implies is_offered(
            #[trigger] offered(raws)[i],
        ) && raws.contains(offered(raws)[i]) by {
            if i < offered(fewer).len() {
                assert(offered(raws)[i] == offered(fewer)[i]);
                let k = choose|k: int| 0 <= k < fewer.len() && fewer[k] == offered(fewer)[i];
                assert(raws[k] == offered(raws)[i]);
            } else {
                assert(raws[raws.len() - 1] == offered(raws)[i]);
            }
        }
        assert forall|k: int| 0 <= k < raws.len() && is_offered(#[trigger] raws[k]) implies offered(
            raws,
        ).contains(raws[k]) by {
            if k < fewer.len() {
                assert(fewer[k] == raws[k]);
                let i = choose|i: int|
                    0 <= i < offered(fewer).len() && offered(fewer)[i] == raws[k];
                assert(offered(raws)[i] == raws[k]);
            } else {
                assert(offered(raws)[offered(raws).len() - 1] == raws[k]);
            }
        }
    }
}

/// Whether a window of the list is the reported one.
pub open spec fn is_window(w: WindowInfo, raw: RawWindow) -> bool {
    &&& w.title@ == raw.title()
    &&& raw.rect.left <= raw.rect.right ==> w.width == raw.rect.right - raw.rect.left
    &&& raw.rect.top <= raw.rect.bottom ==> w.height == raw.rect.bottom - raw.rect.top
    &&& w.minimized == raw.minimized
}

/// The list of windows holds exactly the reported ones that show and have a
/// title, by title.
pub proof fn windows_are_listed_by_title(
    raws: &Vec<RawWindow>,
    r: Result<Vec<WindowInfo>, CaptureError>,
    i: int,
    j: int,
    k: int,
)
    requires
        call_ensures(Capture::list_windows, (raws,), r),
    ensures
        r is Ok,
        r matches Ok(list) ==> {
            &&& 0 <= i < list@.len() ==> list@[i].title@.len() > 0 && exists|k: int|
                0 <= k < raws@.len() && (#[trigger] raws@[k]).visible && raws@[k].text_length != 0
                    && is_window(list@[i], raws@[k])
            &&& 0 <= i < j < list@.len() ==> text_le(list@[i].title@, list@[j].title@)
            &&& 0 <= k < raws@.len() && raws@[k].visible && raws@[k].text_length != 0
                && raws@[k].title().len() > 0 ==> exists|i: int|
                0 <= i < list@.len() && is_window(#[trigger] list@[i], raws@[k])
        },
{
    let list = r->Ok_0@;
    let there = offered(raws@);
    assert(lists_windows(list, there));
    let (order, keys) = choose|order: Seq<usize>, keys: Seq<Title>|
        {
            &&& keys.len() == there.len()
            &&& forall|i: int|
                0 <= i < there.len() ==> (#[trigger] keys[i]).chars@ == there[i].title()
            &&& #[trigger] is_stable_order(keys, order)
            &&& forall|i: int|
                0 <= i < list.len() ==> describes_window(
                    #[trigger] list[i],
                    there[order[i] as int],
                )
        };
    lemma_offered_is_there(raws@);
    if 0 <= i < list.len() {
        let raw = there[order[i] as int];
        assert(describes_window(list[i], raw));
        assert(is_offered(raw) && raws@.contains(raw));
        let at = choose|at: int| 0 <= at < raws@.len() && raws@[at] == raw;
        assert(raws@[at].visible && is_window(list[i], raws@[at]));
    }
    if 0 <= i < j < list.len() {
        assert(describes_window(list[i], there[order[i] as int]));
        assert(describes_window(list[j], there[order[j] as int]));
        assert(crate::order::goes_before(keys, order[i] as int, order[j] as int));
        assert(keys[order[i] as int].chars@ == list[i].title@);
        assert(keys[order[j] as int].chars@ == list[j].title@);
    }
    if 0 <= k < raws@.len() && is_offered(raws@[k]) {
        assert(there.contains(raws@[k]));
        let p = choose|p: int| 0 <= p < there.len() && there[p] == raws@[k];
        assert(r->Ok_0.len() == list.len());
        assert(order.contains(p as usize));
        let at = choose|at: int| 0 <= at < order.len() && order[at] == p as usize;
        assert(describes_window(list[at], there[order[at] as int]));
        assert(is_window(list[at], raws@[k]));
    }
}

/// There is a screen under every number that the list of monitors has, unless
/// that monitor is empty.
pub proof fn every_listed_monitor_has_a_screen(
    list: Seq<MonitorInfo>,
    raws: Seq<RawMonitor>,
    index: int,
    screen: Option<Rect>,
)
    requires
        0 <= index < list.len(),
        lists_monitors(list, raws),
        is_screen_at(monitor_rects(raws), index, screen),
        forall|i: int|
            0 <= i < raws.len() ==> (#[trigger] raws[i]).rect.left < raws[i].rect.right
                && raws[i].rect.top < raws[i].rect.bottom,
    ensures
        screen is Some,
{
    let rects = monitor_rects(raws);
    let shown = choose|order: Seq<usize>|
        {
            &&& #[trigger] is_stable_order(rect_places(rects), order)
            &&& screen == (if index < rects.len() {
                let rc = rects[order[index] as int];
                if rc.left < rc.right && rc.top < rc.bottom {
                    Some(rc)
                } else {
                    None
                }
            } else {
                None
            })
        };
    assert(rects[shown[index] as int] == raws[shown[index] as int].rect);
}

/// A failure is told with what it is about: the number of the monitor, the title
/// of the window, or what the call said.
pub proof fn failures_are_told_with_their_reason(e: CaptureError, r: String)
    requires
        call_ensures(CaptureError::message, (&e,), r),
    ensures
        e matches CaptureError::WindowNotFound(title) ==> ends_with(r@, title@),
        e matches CaptureError::CallFailed(_, why) ==> ends_with(r@, why@),
        e matches CaptureError::MonitorNotFound(i) ==> r@ == "monitor index "@ + decimal(i as nat)
            + " not found"@,
{
    if let CaptureError::WindowNotFound(title) = e {
        assert(r@.skip(r@.len() - title@.len()) =~= title@);
    }
    if let CaptureError::CallFailed(call, why) = e {
        assert(r@.skip(r@.len() - why@.len()) =~= why@);
    }
}

/// Whether a text ends with another.
pub open spec fn ends_with(s: Seq<char>, end: Seq<char>) -> bool {
    end.len() <= s.len() && s.skip(s.len() - end.len()) == end
}

/// A bitmap of a screen takes four bytes for each of its pixels.
pub proof fn bitmaps_take_four_bytes_a_pixel(screen: Rect, r: usize)
    requires
        call_ensures(bitmap_bytes, (screen,), r),
    ensures
        r == 4 * ((screen.right - screen.left) * (screen.bottom - screen.top)),
{
}

/// A distance is what lies between two edges; where they are the wrong way round
/// it wraps around.
pub proof fn distances_lie_between_edges(from: i32, to: i32, r: u32)
    requires
        call_ensures(span_of, (from, to), r),
    ensures
        from <= to ==> from + r == to,
        from > to ==> from + r == to + 0x1_0000_0000,
{
}

/// A failed call is told with its name, then the reason.
pub proof fn failed_calls_are_told_by_name(call: CaptureCall, why: String, r: String)
    requires
        call_ensures(CaptureError::message, (&CaptureError::CallFailed(call, why),), r),
    ensures
        call is CreateDevice ==> r@ == "D3D11CreateDevice failed: "@ + why@,
        call is CastDevice ==> r@ == "cast to IDXGIDevice failed: "@ + why@,
        call is GetParent ==> r@ == "GetParent(IDXGIAdapter) failed: "@ + why@,
        call is CastOutput ==> r@ == "cast to IDXGIOutput1 failed: "@ + why@,
        call is DuplicateOutput ==> r@ == "DuplicateOutput failed: "@ + why@,
        call is CreateTexture ==> r@ == "CreateTexture2D (staging) failed: "@ + why@,
        call is AcquireFrame ==> r@ == "AcquireNextFrame failed: "@ + why@,
        call is CastTexture ==> r@ == "cast to ID3D11Texture2D failed: "@ + why@,
        call is MapTexture ==> r@ == "Map staging texture failed: "@ + why@,
{
}

/// Failures without a reason of their own have their own words.
pub proof fn other_failures_have_their_own_words(e: CaptureError, r: String)
    requires
        call_ensures(CaptureError::message, (&e,), r),
    ensures
        e is ThreadDropped ==> r@ == "capture thread dropped"@,
        e is OutputNotFound ==> r@ == "output for monitor not found"@,
        e matches CaptureError::WindowNotFound(title) ==> r@ == "window not found: "@ + title@,
        e is ZeroCrop ==> r@ == "window crop has zero size"@,
        e is AccessLost ==> r@ == "AcquireNextFrame: access lost, capturer must be recreated"@,
        e is Unavailable ==> r@ == "DXGI capturer unavailable"@,
        e matches CaptureError::Missing(object) ==> r@ == match object {
            MissingObject::Device => "D3D11CreateDevice returned null device"@,
            MissingObject::Context => "D3D11CreateDevice returned null context"@,
            MissingObject::Texture => "CreateTexture2D returned null"@,
        },
{
}

} // verus!
