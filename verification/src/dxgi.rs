//! Capturing through the desktop duplication of the graphics system: finding
//! the output, taking one frame, reading its memory.

use vstd::prelude::*;

use crate::capture::{
    span, span_of, CaptureCall, CaptureError, Frame, GrabRequest, MissingObject, RawWindow, Rect,
    Target,
};
use crate::graphics::{
    create_d3d11_device, create_staging_texture, staging_texture_made, DeviceAnswer, PixelFormat,
    TextureAnswer, TexturePlan, TextureUsage, CPU_ACCESS_READ,
};
use crate::pixels::{
    copy_rows, row_block, row_block_bytes, row_block_len, swap_red_blue, swapped,
};
use crate::text::same_text;
use crate::wide::text_from_wide;

verus! {

/// An output of the graphics adapter: whether it shows a part of the desktop,
/// which monitor it drives and where that lies.
#[derive(Clone, Copy, Debug)]
pub struct OutputDesc {
    pub attached: bool,
    pub monitor: u64,
    pub rect: Rect,
}

/// An output that shows a part of the desktop, with its number at the adapter.
#[derive(Clone, Copy, Debug)]
pub struct AttachedOutput {
    pub position: usize,
    pub desc: OutputDesc,
}

/// The outputs that told about themselves and show a part of the desktop.
pub open spec fn attached_outputs(descs: Seq<Option<OutputDesc>>) -> Seq<AttachedOutput>
    decreases descs.len(),
{
    if descs.len() == 0 {
        Seq::empty()
    } else {
        let before = attached_outputs(descs.drop_last());
        match descs.last() {
            Some(d) => if d.attached {
                before.push(AttachedOutput { position: (descs.len() - 1) as usize, desc: d })
            } else {
                before
            },
            None => before,
        }
    }
}

/// Keeps the outputs that told about themselves and show a part of the desktop.
pub fn enumerate_outputs(descs: &Vec<Option<OutputDesc>>) -> (r: Vec<AttachedOutput>)
    ensures
        r@ == attached_outputs(descs@),
{
    let mut results: Vec<AttachedOutput> = Vec::new();
    let mut i: usize = 0;
    while i < descs.len()
        invariant
            i <= descs@.len(),
            results@ == attached_outputs(descs@.take(i as int)),
        decreases descs@.len() - i,
    {
        assert(descs@.take(i + 1).drop_last() == descs@.take(i as int));
        match descs[i] {
            Some(d) => {
                if d.attached {
                    results.push(AttachedOutput { position: i, desc: d });
                }
            },
            None => {},
        }
        i = i + 1;
    }
    assert(descs@.take(descs@.len() as int) == descs@);
    results
}

/// An output that was found: its number at the adapter, its width and height.
pub open spec fn sized_output(o: AttachedOutput) -> (usize, u32, u32) {
    (
        o.position,
        span(o.desc.rect.left, o.desc.rect.right),
        span(o.desc.rect.top, o.desc.rect.bottom),
    )
}

/// The output with a given place among those that show a part of the desktop.
pub fn find_output_for_monitor_index(
    outputs: &Vec<AttachedOutput>,
    target_idx: usize,
) -> (r: Result<(usize, u32, u32), CaptureError>)
    requires
        target_idx < outputs@.len() ==> outputs@[target_idx as int].desc.rect.is_measurable(),
    ensures
        r == (if target_idx < outputs@.len() {
            Ok(sized_output(outputs@[target_idx as int]))
        } else {
            Err(CaptureError::MonitorNotFound(target_idx))
        }),
{
    if target_idx >= outputs.len() {
        return Err(CaptureError::MonitorNotFound(target_idx));
    }
    let o: AttachedOutput = outputs[target_idx];
    let rc: Rect = o.desc.rect;
    Ok((o.position, span_of(rc.left, rc.right), span_of(rc.top, rc.bottom)))
}

/// Whether `i` is the first output that drives a monitor.
pub open spec fn is_first_for(outputs: Seq<AttachedOutput>, monitor: u64, i: int) -> bool {
    &&& 0 <= i < outputs.len()
    &&& outputs[i].desc.monitor == monitor
    &&& forall|j: int| 0 <= j < i ==> (#[trigger] outputs[j]).desc.monitor != monitor
}

/// Whether some output drives a monitor.
pub open spec fn is_driven(outputs: Seq<AttachedOutput>, monitor: u64) -> bool {
    exists|i: int| 0 <= i < outputs.len() && (#[trigger] outputs[i]).desc.monitor == monitor
}

/// The first output that drives a monitor.
pub fn find_output_for_hmonitor(outputs: &Vec<AttachedOutput>, monitor: u64) -> (r: Result<
    (usize, u32, u32),
    CaptureError,
>)
    requires
        forall|i: int|
            is_first_for(outputs@, monitor, i) ==> (#[trigger]
            outputs@[i]).desc.rect.is_measurable(),
    ensures
        match r {
            Ok(found) => exists|i: int|
                #[trigger] is_first_for(outputs@, monitor, i) && found == sized_output(outputs@[i]),
            Err(e) => e == CaptureError::OutputNotFound && !is_driven(outputs@, monitor),
        },
{
    let mut i: usize = 0;
    while i < outputs.len()
        invariant
            i <= outputs@.len(),
            forall|j: int| 0 <= j < i ==> (#[trigger] outputs@[j]).desc.monitor != monitor,
            forall|i: int|
                is_first_for(outputs@, monitor, i) ==> (#[trigger]
                outputs@[i]).desc.rect.is_measurable(),
        decreases outputs@.len() - i,
    {
        if outputs[i].desc.monitor == monitor {
            assert(is_first_for(outputs@, monitor, i as int));
            let o: AttachedOutput = outputs[i];
            let rc: Rect = o.desc.rect;
            return Ok((o.position, span_of(rc.left, rc.right), span_of(rc.top, rc.bottom)));
        }
        i = i + 1;
    }
    Err(CaptureError::OutputNotFound)
}

/// Whether a window shows under a title.
pub open spec fn shows_as(w: RawWindow, title: Seq<char>) -> bool {
    w.visible && w.text_length != 0 && w.title() == title
}

/// Whether `i` is the first window that shows under a title.
pub open spec fn is_first_shown(windows: Seq<RawWindow>, title: Seq<char>, i: int) -> bool {
    &&& 0 <= i < windows.len()
    &&& shows_as(windows[i], title)
    &&& forall|j: int| 0 <= j < i ==> !shows_as(#[trigger] windows[j], title)
}

/// Whether some window shows under a title.
pub open spec fn is_shown(windows: Seq<RawWindow>, title: Seq<char>) -> bool {
    exists|j: int| 0 <= j < windows.len() && shows_as(#[trigger] windows[j], title)
}

/// The first window that shows under a title.
pub fn find_window(windows: &Vec<RawWindow>, title: &str) -> (r: Result<usize, CaptureError>)
    ensures
        match r {
            Ok(i) => is_first_shown(windows@, title@, i as int),
            Err(e) => (e matches CaptureError::WindowNotFound(t) && t@ == title@) && !is_shown(
                windows@,
                title@,
            ),
        },
{
    let mut i: usize = 0;
    while i < windows.len()
        invariant
            i <= windows@.len(),
            forall|j: int| 0 <= j < i ==> !shows_as(#[trigger] windows@[j], title@),
        decreases windows@.len() - i,
    {
        if windows[i].visible && windows[i].text_length != 0 {
            let text: String = text_from_wide(windows[i].text.as_slice());
            if same_text(text.as_str(), title) {
                return Ok(i);
            }
        }
        i = i + 1;
    }
    Err(CaptureError::WindowNotFound(title.to_owned()))
}

/// A window is found by its title exactly if one shows under it, and then the
/// first such; one that is hidden or has no title is never found.
pub proof fn windows_are_found_by_their_title(
    windows: &Vec<RawWindow>,
    title: &str,
    r: Result<usize, CaptureError>,
    j: int,
)
    requires
        call_ensures(find_window, (windows, title), r),
        0 <= j < windows@.len(),
    ensures
        r matches Ok(i) ==> i < windows@.len() && windows@[i as int].visible
            && windows@[i as int].text_length != 0 && windows@[i as int].title() == title@,
        windows@[j].visible && windows@[j].text_length != 0 && windows@[j].title() == title@
            ==> (r matches Ok(i) && i <= j),
        r matches Err(e) ==> (e matches CaptureError::WindowNotFound(t) && t@ == title@),
{
    if let Ok(i) = r {
        assert(is_first_shown(windows@, title@, i as int));
    } else {
        assert(!is_shown(windows@, title@));
    }
}

/// What a capturer is made for.
pub enum CapturerPlan {
    /// The output with this place among those that show a part of the desktop.
    Output(usize),
    /// The monitor on which the window with this title shows, cut to the window.
    Window(String),
    /// All outputs that show a part of the desktop, joined.
    AllOutputs,
}

/// What a capturer for a target is made for.
pub open spec fn plan_for(target: Target) -> CapturerPlan {
    match target {
        Target::Monitor(idx) => CapturerPlan::Output(idx),
        Target::Window(title) => CapturerPlan::Window(title),
        Target::Combined => CapturerPlan::AllOutputs,
    }
}

/// What a capturer for a target is made for.
pub fn create_capturer(target: &Target) -> (r: CapturerPlan)
    ensures
        r == plan_for(*target),
{
    match target {
        Target::Monitor(idx) => CapturerPlan::Output(*idx),
        Target::Window(title) => CapturerPlan::Window(title.clone()),
        Target::Combined => CapturerPlan::AllOutputs,
    }
}

/// A capturer: the size of its output and the window to which frames are cut.
#[derive(Clone, Copy, Debug)]
pub struct DxgiCapturer {
    pub width: u32,
    pub height: u32,
    pub crop: Option<Rect>,
}

/// The steps in which a capturer is made, in their order.
#[derive(Clone, Copy, Debug, PartialEq, Eq, Structural)]
pub enum CapturerStep {
    /// Look at the output as one that can be duplicated.
    CastOutput,
    /// Make a device.
    CreateDevice,
    /// Duplicate the output.
    Duplicate,
    /// Make the texture.
    CreateTexture(TexturePlan),
}

/// What came of a step.
#[derive(Debug)]
pub enum CapturerAnswer {
    /// The call worked, or why it did not.
    Called(Result<(), String>),
    Device(DeviceAnswer),
    Texture(TextureAnswer),
}

/// A capturer that is being made.
pub struct CapturerSetup {
    /// The number of the output at the adapter.
    pub output: usize,
    pub capturer: DxgiCapturer,
    pub step: CapturerStep,
}

/// How the making goes on.
pub enum CapturerOutcome {
    /// Take this step.
    Next(CapturerStep),
    /// The capturer is ready.
    Ready(DxgiCapturer),
    /// There is no capturer.
    Failed(CaptureError),
}

/// The texture that a capturer of a size reads from.
pub open spec fn capturer_texture(width: u32, height: u32) -> TexturePlan {
    TexturePlan {
        width,
        height,
        format: PixelFormat::Bgra,
        usage: TextureUsage::Staging,
        bind_flags: 0,
        cpu_access: CPU_ACCESS_READ,
    }
}

/// Whether a setup begins for an output of a size that is cut to a window.
pub open spec fn sets_up(
    setup: CapturerSetup,
    output: (usize, u32, u32),
    crop: Option<Rect>,
) -> bool {
    &&& setup.output == output.0
    &&& setup.capturer == DxgiCapturer { width: output.1, height: output.2, crop }
    &&& setup.step == CapturerStep::CastOutput
}

impl CapturerSetup {
    /// Whether an answer can come now.
    pub open spec fn expects(&self, answer: CapturerAnswer) -> bool {
        match self.step {
            CapturerStep::CastOutput => answer is Called,
            CapturerStep::CreateDevice => answer is Device,
            CapturerStep::Duplicate => answer is Called,
            CapturerStep::CreateTexture(_) => answer is Texture,
        }
    }

    /// What comes after an answer.
    pub open spec fn follows(
        &self,
        answer: CapturerAnswer,
        after: CapturerSetup,
        outcome: CapturerOutcome,
    ) -> bool {
        let next = |step: CapturerStep|
            after == CapturerSetup { step, ..*self } && outcome == CapturerOutcome::Next(step);
        let failed = |e: CaptureError| after == *self && outcome == CapturerOutcome::Failed(e);
        match self.step {
            CapturerStep::CastOutput => match answer->Called_0 {
                Ok(_) => next(CapturerStep::CreateDevice),
                Err(e) => failed(CaptureError::CallFailed(CaptureCall::CastOutput, e)),
            },
            CapturerStep::CreateDevice => match answer->Device_0.result {
                Err(e) => failed(CaptureError::CallFailed(CaptureCall::CreateDevice, e)),
                Ok(_) => if !answer->Device_0.device {
                    failed(CaptureError::Missing(MissingObject::Device))
                } else if !answer->Device_0.context {
                    failed(CaptureError::Missing(MissingObject::Context))
                } else {
                    next(CapturerStep::Duplicate)
                },
            },
            CapturerStep::Duplicate => match answer->Called_0 {
                Ok(_) => next(
                    CapturerStep::CreateTexture(
                        capturer_texture(self.capturer.width, self.capturer.height),
                    ),
                ),
                Err(e) => failed(CaptureError::CallFailed(CaptureCall::DuplicateOutput, e)),
            },
            CapturerStep::CreateTexture(_) => match answer->Texture_0.result {
                Err(e) => failed(CaptureError::CallFailed(CaptureCall::CreateTexture, e)),
                Ok(_) => if answer->Texture_0.texture {
                    after == *self && outcome == CapturerOutcome::Ready(self.capturer)
                } else {
                    failed(CaptureError::Missing(MissingObject::Texture))
                },
            },
        }
    }

    fn go_on(&mut self, step: CapturerStep) -> (r: CapturerOutcome)
        ensures
            *final(self) == (CapturerSetup { step, ..*old(self) }),
            r == CapturerOutcome::Next(step),
    {
        self.step = step;
        CapturerOutcome::Next(step)
    }

    /// Goes on after a step.
    pub fn on_answer(&mut self, answer: CapturerAnswer) -> (r: CapturerOutcome)
        requires
            old(self).expects(answer),
        ensures
            old(self).follows(answer, *final(self), r),
    {
        match answer {
            CapturerAnswer::Called(Ok(_)) => {
                match self.step {
                    CapturerStep::CastOutput => self.go_on(CapturerStep::CreateDevice),
                    _ => {
                        let plan: TexturePlan = create_staging_texture(
                            self.capturer.width,
                            self.capturer.height,
                        );
                        self.go_on(CapturerStep::CreateTexture(plan))
                    },
                }
            },
            CapturerAnswer::Called(Err(e)) => {
                let call: CaptureCall = match self.step {
                    CapturerStep::CastOutput => CaptureCall::CastOutput,
                    _ => CaptureCall::DuplicateOutput,
                };
                CapturerOutcome::Failed(CaptureError::CallFailed(call, e))
            },
            CapturerAnswer::Device(answer) => match create_d3d11_device(answer) {
                Ok(_) => self.go_on(CapturerStep::Duplicate),
                Err(e) => CapturerOutcome::Failed(e),
            },
            CapturerAnswer::Texture(answer) => match staging_texture_made(answer) {
                Ok(_) => CapturerOutcome::Ready(self.capturer),
                Err(e) => CapturerOutcome::Failed(e),
            },
        }
    }
}

impl DxgiCapturer {
    /// Begins to make a capturer for an output.
    pub fn from_output(output: usize, width: u32, height: u32, crop: Option<Rect>) -> (r:
        CapturerSetup)
        ensures
            sets_up(r, (output, width, height), crop),
    {
        CapturerSetup {
            output,
            capturer: DxgiCapturer { width, height, crop },
            step: CapturerStep::CastOutput,
        }
    }

    /// Begins to make a capturer for a monitor.
    pub fn new_monitor(outputs: &Vec<AttachedOutput>, target_idx: usize) -> (r: Result<
        CapturerSetup,
        CaptureError,
    >)
        requires
            target_idx < outputs@.len() ==> outputs@[target_idx as int].desc.rect.is_measurable(),
        ensures
            match r {
                Ok(setup) => target_idx < outputs@.len() && sets_up(
                    setup,
                    sized_output(outputs@[target_idx as int]),
                    None,
                ),
                Err(e) => target_idx >= outputs@.len() && e == CaptureError::MonitorNotFound(
                    target_idx,
                ),
            },
    {
        match find_output_for_monitor_index(outputs, target_idx) {
            Ok((output, w, h)) => Ok(Self::from_output(output, w, h, None)),
            Err(e) => Err(e),
        }
    }

    /// Begins to make a capturer for each monitor, so that together they capture
    /// all of them.
    pub fn new_combined(outputs: &Vec<AttachedOutput>) -> (r: Result<
        Vec<CapturerSetup>,
        CaptureError,
    >)
        requires
            forall|i: int|
                0 <= i < outputs@.len() ==> (#[trigger] outputs@[i]).desc.rect.is_measurable(),
        ensures
            match r {
                Ok(setups) => {
                    &&& outputs@.len() > 0
                    &&& setups@.len() == outputs@.len()
                    &&& forall|i: int|
                        0 <= i < setups@.len() ==> sets_up(
                            #[trigger] setups@[i],
                            sized_output(outputs@[i]),
                            None,
                        )
                },
                Err(e) => outputs@.len() == 0 && e == CaptureError::MonitorNotFound(0),
            },
    {
        if outputs.len() == 0 {
            return Err(CaptureError::MonitorNotFound(0));
        }
        let mut setups: Vec<CapturerSetup> = Vec::new();
        let mut i: usize = 0;
        while i < outputs.len()
            invariant
                i <= outputs@.len(),
                forall|j: int|
                    0 <= j < outputs@.len() ==> (#[trigger] outputs@[j]).desc.rect.is_measurable(),
                setups@.len() == i,
                forall|j: int|
                    0 <= j < i ==> sets_up(#[trigger] setups@[j], sized_output(outputs@[j]), None),
            decreases outputs@.len() - i,
        {
            match Self::new_monitor(outputs, i) {
                Ok(setup) => {
                    setups.push(setup);
                },
                Err(e) => {
                    return Err(e);
                },
            }
            i = i + 1;
        }
        Ok(setups)
    }

    /// Begins to make a capturer for the window that was found on a monitor, cut
    /// to the window.
    pub fn new_window(outputs: &Vec<AttachedOutput>, monitor: u64, window: Rect) -> (r: Result<
        CapturerSetup,
        CaptureError,
    >)
        requires
            forall|i: int|
                is_first_for(outputs@, monitor, i) ==> (#[trigger]
                outputs@[i]).desc.rect.is_measurable(),
        ensures
            match r {
                Ok(setup) => exists|i: int| #[trigger]
                    is_first_for(outputs@, monitor, i) && sets_up(
                        setup,
                        sized_output(outputs@[i]),
                        Some(window),
                    ),
                Err(e) => e == CaptureError::OutputNotFound && !is_driven(outputs@, monitor),
            },
    {
        match find_output_for_hmonitor(outputs, monitor) {
            Ok((output, w, h)) => Ok(Self::from_output(output, w, h, Some(window))),
            Err(e) => Err(e),
        }
    }
}

proof fn lemma_attached_outputs(descs: Seq<Option<OutputDesc>>)
    requires
        descs.len() <= usize::MAX,
    ensures
        forall|k: int|
            0 <= k < attached_outputs(descs).len() ==> {
                let o = #[trigger] attached_outputs(descs)[k];
                o.position < descs.len() && descs[o.position as int] == Some(o.desc)
                    && o.desc.attached
            },
        forall|k: int, l: int|
            0 <= k < l < attached_outputs(descs).len() ==> (#[trigger] attached_outputs(
                descs,
            )[k]).position < (#[trigger] attached_outputs(descs)[l]).position,
        forall|i: int|
            0 <= i < descs.len() && (#[trigger] descs[i] matches Some(d) && d.attached)
                ==> exists|k: int|
                0 <= k < attached_outputs(descs).len() && (#[trigger] attached_outputs(
                    descs,
                )[k]).position == i,
    decreases descs.len(),
{
    if descs.len() > 0 {
        let n = descs.len() - 1;
        let fewer = descs.drop_last();
        lemma_attached_outputs(fewer);
        let before = attached_outputs(fewer);
        let all = attached_outputs(descs);
        assert forall|k: int| 0 <= k < all.len() implies {
            let o = #[trigger] all[k];
            o.position < descs.len() && descs[o.position as int] == Some(o.desc) && o.desc.attached
        } by {
            if k < before.len() {
                assert(all[k] == before[k]);
                assert(fewer[before[k].position as int] == descs[before[k].position as int]);
            }
        }
        assert forall|k: int, l: int| 0 <= k < l < all.len() implies (
        #[trigger] all[k]).position < (#[trigger] all[l]).position by {
            assert(all[k] == before[k]);
            if l < before.len() {
                assert(all[l] == before[l]);
            }
        }
        assert forall|i: int|
            0 <= i < descs.len() && (#[trigger] descs[i] matches Some(d)
                && d.attached) implies exists|k: int|
            0 <= k < all.len() && (#[trigger] all[k]).position == i by {
            if i < n {
                assert(fewer[i] == descs[i]);
                let k = choose|k: int|
                    0 <= k < before.len() && (#[trigger] before[k]).position == i;
                assert(all[k] == before[k]);
            } else {
                assert(all[before.len() as int].position == i);
            }
        }
    }
}

/// Exactly the outputs that told about themselves and show a part of the desktop
/// are kept, each once, with its own number and in the order of the adapter.
pub proof fn attached_outputs_are_kept_in_order(
    descs: Vec<Option<OutputDesc>>,
    r: Vec<AttachedOutput>,
    k: int,
    l: int,
    i: int,
)
    requires
        call_ensures(enumerate_outputs, (&descs,), r),
        descs@.len() <= usize::MAX,
    ensures
        0 <= k < r@.len() ==> r@[k].position < descs@.len() && descs@[r@[k].position as int]
            == Some(r@[k].desc) && r@[k].desc.attached,
        0 <= k < l < r@.len() ==> r@[k].position < r@[l].position,
        0 <= i < descs@.len() && (descs@[i] matches Some(d) && d.attached) ==> exists|k: int|
            0 <= k < r@.len() && (#[trigger] r@[k]).position == i,
{
    lemma_attached_outputs(descs@);
}

/// A capturer of a monitor reads the output with that place among those that
/// show a part of the desktop, in its own size and not cut.
pub proof fn monitors_are_captured_by_their_place(
    outputs: Vec<AttachedOutput>,
    place: usize,
    r: Result<CapturerSetup, CaptureError>,
)
    requires
        call_ensures(DxgiCapturer::new_monitor, (&outputs, place), r),
        place < outputs@.len() ==> outputs@[place as int].desc.rect.is_measurable(),
    ensures
        r is Ok <==> place < outputs@.len(),
        r matches Ok(setup) ==> {
            let o = outputs@[place as int];
            let rc = o.desc.rect;
            &&& setup.output == o.position
            &&& rc.left <= rc.right ==> setup.capturer.width == rc.right - rc.left
            &&& rc.top <= rc.bottom ==> setup.capturer.height == rc.bottom - rc.top
            &&& setup.capturer.crop is None
            &&& setup.step == CapturerStep::CastOutput
        },
        r matches Err(e) ==> e == CaptureError::MonitorNotFound(place),
{
}

/// A capturer of a window reads an output that drives the window's monitor, cut
/// to the window.
pub proof fn windows_are_captured_on_their_monitor(
    outputs: &Vec<AttachedOutput>,
    monitor: u64,
    window: Rect,
    r: Result<CapturerSetup, CaptureError>,
)
    requires
        call_ensures(DxgiCapturer::new_window, (outputs, monitor, window), r),
    ensures
        r is Ok <==> exists|i: int|
            0 <= i < outputs@.len() && (#[trigger] outputs@[i]).desc.monitor == monitor,
        r matches Ok(setup) ==> setup.capturer.crop == Some(window) && exists|i: int|
            0 <= i < outputs@.len() && (#[trigger] outputs@[i]).desc.monitor == monitor
                && setup.output == outputs@[i].position,
        r matches Err(e) ==> e == CaptureError::OutputNotFound,
{
    if let Ok(setup) = r {
        let i = choose|i: int| #[trigger]
            is_first_for(outputs@, monitor, i) && sets_up(
                setup,
                sized_output(outputs@[i]),
                Some(window),
            );
        assert(outputs@[i].desc.monitor == monitor);
    }
    if r is Err {
        assert(!is_driven(outputs@, monitor));
    }
}

/// All monitors together are captured by one capturer for each, in order.
pub proof fn all_monitors_are_captured_together(
    outputs: Vec<AttachedOutput>,
    r: Result<Vec<CapturerSetup>, CaptureError>,
    i: int,
)
    requires
        call_ensures(DxgiCapturer::new_combined, (&outputs,), r),
    ensures
        r is Ok <==> outputs@.len() > 0,
        r matches Ok(setups) ==> setups@.len() == outputs@.len() && (0 <= i < setups@.len()
            ==> setups@[i].output == outputs@[i].position && setups@[i].capturer.crop is None),
{
}

/// What is captured is what the target names: the monitor of that number, the
/// window of that title, or all monitors.
pub proof fn targets_name_what_is_captured(target: Target, r: CapturerPlan)
    requires
        call_ensures(create_capturer, (&target,), r),
    ensures
        target matches Target::Monitor(n) ==> r == CapturerPlan::Output(n),
        target matches Target::Window(title) ==> r == CapturerPlan::Window(title),
        target is Combined ==> r is AllOutputs,
{
}

/// A capturer that is made step by step is the one that was begun; it is ready
/// only after the output was looked at, a device made, the output duplicated
/// and a texture of its size made, and each answer that tells of a failure ends
/// the making with that failure.
pub proof fn capturers_are_made_step_by_step(
    setup: &&mut CapturerSetup,
    before: CapturerSetup,
    after: CapturerSetup,
    answer: CapturerAnswer,
    r: CapturerOutcome,
)
    requires
        call_ensures(CapturerSetup::on_answer, (*setup, answer), r),
        before == **setup,
        after == *final(*setup),
        before.expects(answer),
    ensures
        after.output == before.output,
        after.capturer == before.capturer,
        r matches CapturerOutcome::Ready(capturer) ==> before.step is CreateTexture && capturer
            == before.capturer,
        r matches CapturerOutcome::Next(step) ==> after.step == step && match before.step {
            CapturerStep::CastOutput => step is CreateDevice,
            CapturerStep::CreateDevice => step is Duplicate,
            CapturerStep::Duplicate => step matches CapturerStep::CreateTexture(plan) && plan.width
                == before.capturer.width && plan.height == before.capturer.height,
            CapturerStep::CreateTexture(_) => false,
        },
        answer matches CapturerAnswer::Called(Err(e)) ==> (r matches CapturerOutcome::Failed(
            CaptureError::CallFailed(call, why),
        ) && why == e && call == (if before.step is CastOutput {
            CaptureCall::CastOutput
        } else {
            CaptureCall::DuplicateOutput
        })),
        answer matches CapturerAnswer::Called(Ok(_)) ==> r is Next,
        answer matches CapturerAnswer::Device(d) ==> (r is Next <==> d.result is Ok && d.device
            && d.context) && (r is Failed <==> !(d.result is Ok && d.device && d.context)),
        answer matches CapturerAnswer::Texture(t) ==> (r is Ready <==> t.result is Ok && t.texture)
            && (r is Failed <==> !(t.result is Ok && t.texture)),
        answer matches CapturerAnswer::Device(d) ==> match d.result {
            Err(e) => r == CapturerOutcome::Failed(
                CaptureError::CallFailed(CaptureCall::CreateDevice, e),
            ),
            Ok(_) => (!d.device ==> r == CapturerOutcome::Failed(
                CaptureError::Missing(MissingObject::Device),
            )) && (d.device && !d.context ==> r == CapturerOutcome::Failed(
                CaptureError::Missing(MissingObject::Context),
            )),
        },
        answer matches CapturerAnswer::Texture(t) ==> match t.result {
            Err(e) => r == CapturerOutcome::Failed(
                CaptureError::CallFailed(CaptureCall::CreateTexture, e),
            ),
            Ok(_) => !t.texture ==> r == CapturerOutcome::Failed(
                CaptureError::Missing(MissingObject::Texture),
            ),
        },
{
}

/// The largest even number up to a number.
pub open spec fn evened(n: int) -> int {
    n - n % 2
}

/// The larger of a number and zero.
pub open spec fn at_least_zero(n: int) -> int {
    if n < 0 {
        0
    } else {
        n
    }
}

impl DxgiCapturer {
    /// The left column, top row, width and height of what is read.
    pub open spec fn area(&self) -> (int, int, int, int) {
        match self.crop {
            Some(rc) => (
                at_least_zero(rc.left as int),
                at_least_zero(rc.top as int),
                at_least_zero(rc.right - rc.left),
                at_least_zero(rc.bottom - rc.top),
            ),
            None => (0, 0, self.width as int, self.height as int),
        }
    }

    /// The left column, top row, width and height of what a frame keeps: the
    /// encoder takes even sizes only, so an odd one loses its last row or column.
    pub open spec fn kept(&self) -> (int, int, int, int) {
        let (x, y, w, h) = self.area();
        (x, y, evened(w), evened(h))
    }

    /// Whether memory of `len` bytes with rows every `pitch` bytes holds all
    /// that is read, and a frame of it can be kept.
    pub open spec fn fits(&self, pitch: int, len: int) -> bool {
        let (x, y, w, h) = self.kept();
        &&& (self.crop matches Some(rc) ==> rc.is_measurable())
        &&& w > 0 && h > 0 ==> (y + h - 1) * pitch + x * 4 + w * 4 <= len
        &&& w * 4 * h <= usize::MAX
    }

    /// Whether there is nothing to read because nothing is kept of the window.
    pub open spec fn is_empty_crop(&self) -> bool {
        self.crop is Some && (self.kept().2 == 0 || self.kept().3 == 0)
    }

    /// Reads a frame out of mapped memory, whose rows begin every `pitch` bytes
    /// and hold blue first. Odd sizes are cut by a pixel.
    pub fn read_mapped_frame(&self, pitch: u32, memory: &[u8]) -> (r: Result<Frame, CaptureError>)
        requires
            self.fits(pitch as int, memory@.len() as int),
        ensures
            match r {
                Ok(frame) => {
                    let (x, y, w, h) = self.area();
                    let ew = w - w % 2;
                    let eh = h - h % 2;
                    &&& !self.is_empty_crop()
                    &&& frame.width == ew
                    &&& frame.height == eh
                    &&& ew > 0 && eh > 0 ==> frame.data@ == swapped(
                        row_block(memory@, y * pitch + x * 4, pitch as int, ew * 4, eh),
                    )
                    &&& frame.is_full()
                },
                Err(e) => self.is_empty_crop() && e == CaptureError::ZeroCrop,
            },
    {
        let (x, y, w, h): (u32, u32, u32, u32) = match self.crop {
            Some(rc) => {
                let dw: i32 = rc.right - rc.left;
                let dh: i32 = rc.bottom - rc.top;
                let w: u32 = if dw > 0 {
                    dw as u32
                } else {
                    0
                };
                let h: u32 = if dh > 0 {
                    dh as u32
                } else {
                    0
                };
                let x: u32 = if rc.left > 0 {
                    rc.left as u32
                } else {
                    0
                };
                let y: u32 = if rc.top > 0 {
                    rc.top as u32
                } else {
                    0
                };
                (x, y, w, h)
            },
            None => (0, 0, self.width, self.height),
        };
        assert((x as int, y as int, w as int, h as int) == self.area());
        let ew: u32 = w - w % 2;
        let eh: u32 = h - h % 2;
        assert((x as int, y as int, ew as int, eh as int) == self.kept());
        if self.crop.is_some() && (ew == 0 || eh == 0) {
            return Err(CaptureError::ZeroCrop);
        }
        Ok(read_area(pitch, memory, x, y, ew, eh))
    }

    /// Whether memory of `len` bytes with rows every `pitch` bytes holds all of
    /// the output, and a frame of it can be kept.
    pub open spec fn holds_output(&self, pitch: int, len: int) -> bool {
        &&& self.width > 0 && self.height > 0 ==> (self.height - 1) * pitch + self.width * 4 <= len
        &&& self.width * 4 * self.height <= usize::MAX
    }

    /// Reads all of an output out of mapped memory, in its own size, as a part of
    /// a larger picture.
    pub fn read_output(&self, pitch: u32, memory: &[u8]) -> (r: Frame)
        requires
            self.holds_output(pitch as int, memory@.len() as int),
        ensures
            r.width == self.width,
            r.height == self.height,
            r.width > 0 && r.height > 0 ==> r.data@ == swapped(
                row_block(memory@, 0, pitch as int, self.width * 4, self.height as int),
            ),
            r.is_full(),
    {
        read_area(pitch, memory, 0, 0, self.width, self.height)
    }
}

fn read_area(pitch: u32, memory: &[u8], x: u32, y: u32, w: u32, h: u32) -> (r: Frame)
    requires
        w > 0 && h > 0 ==> (y + h - 1) * pitch + x * 4 + w * 4 <= memory@.len(),
        w * 4 * h <= usize::MAX,
    ensures
        r.width == w,
        r.height == h,
        w > 0 && h > 0 ==> r.data@ == swapped(
            row_block(memory@, y * pitch + x * 4, pitch as int, w * 4, h as int),
        ),
        r.is_full(),
{
    let n: usize = memory.len();
    let ghost p = pitch as int;
    assert(w * 4 * h == h * (w * 4) && w * h * 4 == w * 4 * h) by (nonlinear_arith);
    if w == 0 || h == 0 {
        assert(w * h * 4 == 0) by (nonlinear_arith)
            requires
                w == 0 || h == 0,
        ;
        let data: Vec<u8> = Vec::new();
        return Frame { width: w, height: h, data: data };
    }
    assert((y + h - 1) * p == y * p + (h - 1) * p && 0 <= y * p && 0 <= (h - 1) * p)
        by (nonlinear_arith)
        requires
            0 <= y,
            1 <= h,
            0 <= p,
    ;
    assert(w * 4 <= w * 4 * h) by (nonlinear_arith)
        requires
            0 <= w,
            1 <= h,
    ;
    let len: usize = w as usize * 4;
    let first: usize = y as usize * pitch as usize + x as usize * 4;
    proof {
        row_block_len(memory@, first as int, p, len as int, h as int);
    }
    let mut data: Vec<u8> = copy_rows(memory, first, pitch as usize, len, h as usize);
    swap_red_blue(&mut data);
    Frame { width: w, height: h, data: data }
}

/// Whether the pixel in column `i` and row `j` of a frame is, with red and blue
/// exchanged, the pixel of the memory in column `x` and row `y`.
pub open spec fn shows_pixel(
    frame: Frame,
    i: int,
    j: int,
    memory: Seq<u8>,
    pitch: int,
    x: int,
    y: int,
) -> bool {
    let to = (j * frame.width + i) * 4;
    let from = y * pitch + x * 4;
    &&& frame.data@[to] == memory[from + 2]
    &&& frame.data@[to + 1] == memory[from + 1]
    &&& frame.data@[to + 2] == memory[from]
    &&& frame.data@[to + 3] == memory[from + 3]
}

proof fn lemma_area_pixel(
    frame: Frame,
    memory: Seq<u8>,
    pitch: int,
    x: int,
    y: int,
    i: int,
    j: int,
)
    requires
        0 <= pitch,
        0 <= x,
        0 <= y,
        0 <= i < frame.width,
        0 <= j < frame.height,
        (y + frame.height - 1) * pitch + x * 4 + frame.width * 4 <= memory.len(),
        frame.data@ == swapped(
            row_block(memory, y * pitch + x * 4, pitch, frame.width * 4, frame.height as int),
        ),
    ensures
        shows_pixel(frame, i, j, memory, pitch, x + i, y + j),
{
    let w = frame.width as int;
    let h = frame.height as int;
    let offset = y * pitch + x * 4;
    let len = w * 4;
    let block = row_block(memory, offset, pitch, len, h);
    assert((y + h - 1) * pitch == y * pitch + (h - 1) * pitch && 0 <= y * pitch)
        by (nonlinear_arith)
        requires
            0 <= y,
            0 <= pitch,
    ;
    row_block_bytes(memory, offset, pitch, len, h, j, i * 4);
    row_block_bytes(memory, offset, pitch, len, h, j, i * 4 + 1);
    row_block_bytes(memory, offset, pitch, len, h, j, i * 4 + 2);
    row_block_bytes(memory, offset, pitch, len, h, j, i * 4 + 3);
    let to = (j * w + i) * 4;
    assert(j * len == j * w * 4) by (nonlinear_arith)
        requires
            len == w * 4,
    ;
    assert((y + j) * pitch == y * pitch + j * pitch) by (nonlinear_arith);
    assert(h * len == w * h * 4) by (nonlinear_arith)
        requires
            len == w * 4,
    ;
    assert(to % 4 == 0);
    assert(to == j * len + i * 4);
    assert(block.len() == h * len);
    assert(to + 3 < block.len());
    assert(block.len() % 4 == 0);
}

/// A frame of a window begins at the window's left and top edge, or at that of
/// the monitor where the window reaches beyond it: the pixel in column `i` and
/// row `j` of the frame is, with red and blue exchanged, the pixel of the memory
/// that many columns and rows further. The frame is as large as the window, less
/// an odd column and an odd row; a window of which nothing is left gives none.
pub proof fn windows_show_their_own_pixels(
    capturer: DxgiCapturer,
    window: Rect,
    pitch: u32,
    memory: &[u8],
    r: Result<Frame, CaptureError>,
    i: int,
    j: int,
)
    requires
        call_ensures(DxgiCapturer::read_mapped_frame, (&capturer, pitch, memory), r),
        capturer.crop == Some(window),
        window.left < window.right,
        window.top < window.bottom,
        ({
            let left = if window.left < 0 {
                0
            } else {
                window.left as int
            };
            let top = if window.top < 0 {
                0
            } else {
                window.top as int
            };
            (top + window.bottom - window.top - 1) * pitch + (left + window.right - window.left) * 4
                <= memory@.len()
        }),
    ensures
        r is Err <==> window.right - window.left < 2 || window.bottom - window.top < 2,
        r matches Err(e) ==> e == CaptureError::ZeroCrop,
        r matches Ok(frame) ==> {
            let left = if window.left < 0 {
                0
            } else {
                window.left as int
            };
            let top = if window.top < 0 {
                0
            } else {
                window.top as int
            };
            &&& frame.width % 2 == 0 && window.right - window.left - 1 <= frame.width
                <= window.right - window.left
            &&& frame.height % 2 == 0 && window.bottom - window.top - 1 <= frame.height
                <= window.bottom - window.top
            &&& 0 <= i < frame.width && 0 <= j < frame.height ==> shows_pixel(
                frame,
                i,
                j,
                memory@,
                pitch as int,
                left + i,
                top + j,
            )
        },
{
    if let Ok(frame) = r {
        if 0 <= i < frame.width && 0 <= j < frame.height {
            let (x, y, w, h) = capturer.area();
            assert((y + frame.height - 1) * pitch <= (y + h - 1) * pitch) by (nonlinear_arith)
                requires
                    frame.height <= h,
                    0 <= pitch,
            ;
            lemma_area_pixel(frame, memory@, pitch as int, x, y, i, j);
        }
    }
}

/// For a window that lies on the monitor, the pixel in column `i` and row `j` of
/// the frame is, with red and blue exchanged, the pixel of the memory in column
/// `left + i` and row `top + j`; memory that holds the monitor is enough to read
/// it.
pub proof fn windows_on_the_monitor_are_cut_out(
    capturer: DxgiCapturer,
    window: Rect,
    pitch: u32,
    memory: &[u8],
    frame: Frame,
    i: int,
    j: int,
)
    requires
        call_ensures(DxgiCapturer::read_mapped_frame, (&capturer, pitch, memory), Ok(frame)),
        capturer.crop == Some(window),
        0 <= window.left < window.right <= capturer.width,
        0 <= window.top < window.bottom <= capturer.height,
        capturer.width * 4 <= pitch,
        capturer.height * pitch <= memory@.len(),
        capturer.width * 4 * capturer.height <= usize::MAX,
        0 <= i < frame.width,
        0 <= j < frame.height,
    ensures
        capturer.fits(pitch as int, memory@.len() as int),
        shows_pixel(frame, i, j, memory@, pitch as int, window.left + i, window.top + j),
{
    let w = window.right - window.left;
    let h = window.bottom - window.top;
    assert((window.top + h - 1) * pitch + pitch <= capturer.height * pitch) by (nonlinear_arith)
        requires
            window.top + h <= capturer.height,
            0 <= pitch,
    ;
    assert((window.top + h - h % 2 - 1) * pitch <= (window.top + h - 1) * pitch)
        by (nonlinear_arith)
        requires
            0 <= h,
            0 <= pitch,
    ;
    assert((w - w % 2) * 4 * (h - h % 2) <= capturer.width * 4 * capturer.height)
        by (nonlinear_arith)
        requires
            0 <= w <= capturer.width,
            0 <= h <= capturer.height,
    ;
    windows_show_their_own_pixels(capturer, window, pitch, memory, Ok(frame), i, j);
}

/// A frame of a monitor that is not cut shows it from its first column and row
/// on, less an odd column and an odd row.
pub proof fn monitors_show_all_their_pixels(
    capturer: DxgiCapturer,
    pitch: u32,
    memory: &[u8],
    r: Result<Frame, CaptureError>,
    i: int,
    j: int,
)
    requires
        call_ensures(DxgiCapturer::read_mapped_frame, (&capturer, pitch, memory), r),
        capturer.crop is None,
        capturer.width * 4 <= pitch,
        capturer.height * pitch <= memory@.len(),
    ensures
        r matches Ok(frame) && frame.width % 2 == 0 && capturer.width - 1 <= frame.width
            <= capturer.width && frame.height % 2 == 0 && capturer.height - 1 <= frame.height
            <= capturer.height && (0 <= i < frame.width && 0 <= j < frame.height ==> shows_pixel(
            frame,
            i,
            j,
            memory@,
            pitch as int,
            i,
            j,
        )),
{
    if let Ok(frame) = r {
        if 0 <= i < frame.width && 0 <= j < frame.height {
            assert((frame.height - 1) * pitch + pitch <= capturer.height * pitch)
                by (nonlinear_arith)
                requires
                    frame.height <= capturer.height,
                    0 <= pitch,
            ;
            lemma_area_pixel(frame, memory@, pitch as int, 0, 0, i, j);
        }
    }
}

/// A part of a larger picture shows all of its output, column for column and
/// row for row, in its own size.
pub proof fn parts_show_all_their_pixels(
    capturer: DxgiCapturer,
    pitch: u32,
    memory: &[u8],
    frame: Frame,
    i: int,
    j: int,
)
    requires
        call_ensures(DxgiCapturer::read_output, (&capturer, pitch, memory), frame),
        capturer.width * 4 <= pitch,
        capturer.height * pitch <= memory@.len(),
    ensures
        frame.width == capturer.width,
        frame.height == capturer.height,
        0 <= i < frame.width && 0 <= j < frame.height ==> shows_pixel(
            frame,
            i,
            j,
            memory@,
            pitch as int,
            i,
            j,
        ),
{
    if 0 <= i < frame.width && 0 <= j < frame.height {
        assert((frame.height - 1) * pitch + pitch <= capturer.height * pitch) by (nonlinear_arith)
            requires
                frame.height <= capturer.height,
                0 <= pitch,
        ;
        lemma_area_pixel(frame, memory@, pitch as int, 0, 0, i, j);
    }
}

/// How far the taking of one frame has come.
pub enum GrabEvent {
    /// No frame could be acquired: the error code and what it says.
    AcquireFailed(u32, String),
    /// A frame was acquired, with or without a picture.
    Acquired(bool),
    /// The picture was taken as a texture.
    Cast(Result<(), String>),
    /// The texture was copied and its memory mapped.
    Mapped(Result<(), String>),
    /// The mapped memory was read.
    Read(Result<Frame, CaptureError>),
}

/// What to do next for the frame.
pub enum GrabStep {
    /// Take the picture as a texture.
    CastTexture,
    /// Copy the texture and map the memory of the copy.
    CopyAndMap,
    /// Read the mapped memory.
    ReadMapped,
    /// Give back what was mapped and acquired; this is the outcome.
    Finish {
        unmap: bool,
        release: bool,
        result: Result<Option<Frame>, CaptureError>,
    },
}

/// How long a frame of an output is waited for, in milliseconds.
pub const FRAME_WAIT_MS: u32 = 100;

/// The error code for a wait in which nothing changed.
pub const WAIT_TIMEOUT: u32 = 0x887A_0027;

/// The error code for a duplication that was taken away.
pub const ACCESS_LOST: u32 = 0x887A_0001;

/// What follows on each event: a wait without change gives no frame, a lost
/// duplication and every other failure is an error.
pub open spec fn grab_next(event: GrabEvent) -> GrabStep {
    match event {
        GrabEvent::AcquireFailed(code, detail) => GrabStep::Finish {
            unmap: false,
            release: false,
            result: if code == WAIT_TIMEOUT {
                Ok(None)
            } else if code == ACCESS_LOST {
                Err(CaptureError::AccessLost)
            } else {
                Err(CaptureError::CallFailed(CaptureCall::AcquireFrame, detail))
            },
        },
        GrabEvent::Acquired(true) => GrabStep::CastTexture,
        GrabEvent::Acquired(false) => GrabStep::Finish {
            unmap: false,
            release: true,
            result: Ok(None),
        },
        GrabEvent::Cast(Ok(_)) => GrabStep::CopyAndMap,
        GrabEvent::Cast(Err(detail)) => GrabStep::Finish {
            unmap: false,
            release: true,
            result: Err(CaptureError::CallFailed(CaptureCall::CastTexture, detail)),
        },
        GrabEvent::Mapped(Ok(_)) => GrabStep::ReadMapped,
        GrabEvent::Mapped(Err(detail)) => GrabStep::Finish {
            unmap: false,
            release: true,
            result: Err(CaptureError::CallFailed(CaptureCall::MapTexture, detail)),
        },
        GrabEvent::Read(Ok(frame)) => GrabStep::Finish {
            unmap: true,
            release: true,
            result: Ok(Some(frame)),
        },
        GrabEvent::Read(Err(e)) => GrabStep::Finish { unmap: true, release: true, result: Err(e) },
    }
}

impl DxgiCapturer {
    /// Says what to do next for the frame that is being taken.
    pub fn grab(&self, event: GrabEvent) -> (step: GrabStep)
        ensures
            step == grab_next(event),
    {
        match event {
            GrabEvent::AcquireFailed(code, detail) => {
                let result = if code == WAIT_TIMEOUT {
                    Ok(None)
                } else if code == ACCESS_LOST {
                    Err(CaptureError::AccessLost)
                } else {
                    Err(CaptureError::CallFailed(CaptureCall::AcquireFrame, detail))
                };
                GrabStep::Finish { unmap: false, release: false, result: result }
            },
            GrabEvent::Acquired(with_picture) => {
                if with_picture {
                    GrabStep::CastTexture
                } else {
                    GrabStep::Finish { unmap: false, release: true, result: Ok(None) }
                }
            },
            GrabEvent::Cast(Ok(_)) => GrabStep::CopyAndMap,
            GrabEvent::Cast(Err(detail)) => GrabStep::Finish {
                unmap: false,
                release: true,
                result: Err(CaptureError::CallFailed(CaptureCall::CastTexture, detail)),
            },
            GrabEvent::Mapped(Ok(_)) => GrabStep::ReadMapped,
            GrabEvent::Mapped(Err(detail)) => GrabStep::Finish {
                unmap: false,
                release: true,
                result: Err(CaptureError::CallFailed(CaptureCall::MapTexture, detail)),
            },
            GrabEvent::Read(Ok(frame)) => GrabStep::Finish {
                unmap: true,
                release: true,
                result: Ok(Some(frame)),
            },
            GrabEvent::Read(Err(e)) => GrabStep::Finish {
                unmap: true,
                release: true,
                result: Err(e),
            },
        }
    }
}

/// A frame that was acquired is always given back at the end, memory is
/// unmapped exactly where it was mapped, and nothing is given back that was
/// never acquired.
pub proof fn acquired_frames_are_given_back(event: GrabEvent)
    ensures
        grab_next(event) matches GrabStep::Finish { unmap, release, result } ==> {
            &&& release == !(event is AcquireFailed)
            &&& unmap == (event is Read)
            &&& (result matches Ok(Some(_)) ==> event is Read)
        },
{
}

/// A wait in which nothing changed gives no frame and no error, a duplication
/// that was taken away is told as such, and any other failure is told with what
/// the call said. A frame that was read is given as it is.
pub proof fn grabs_tell_what_happened(capturer: DxgiCapturer, event: GrabEvent, step: GrabStep)
    requires
        call_ensures(DxgiCapturer::grab, (&capturer, event), step),
    ensures
        match event {
            GrabEvent::AcquireFailed(code, detail) => step matches GrabStep::Finish {
                result,
                ..
            } && if code == 0x887A_0027 {
                result == Ok::<Option<Frame>, CaptureError>(None)
            } else if code == 0x887A_0001 {
                result == Err::<Option<Frame>, CaptureError>(CaptureError::AccessLost)
            } else {
                result == Err::<Option<Frame>, CaptureError>(
                    CaptureError::CallFailed(CaptureCall::AcquireFrame, detail),
                )
            },
            GrabEvent::Acquired(with_picture) => if with_picture {
                step is CastTexture
            } else {
                step matches GrabStep::Finish { result: Ok(None), .. }
            },
            GrabEvent::Cast(r) => match r {
                Ok(_) => step is CopyAndMap,
                Err(detail) => step matches GrabStep::Finish {
                    result: Err(CaptureError::CallFailed(call, why)),
                    ..
                } && why == detail && call == CaptureCall::CastTexture,
            },
            GrabEvent::Mapped(r) => match r {
                Ok(_) => step is ReadMapped,
                Err(detail) => step matches GrabStep::Finish {
                    result: Err(CaptureError::CallFailed(call, why)),
                    ..
                } && why == detail && call == CaptureCall::MapTexture,
            },
            GrabEvent::Read(r) => match r {
                Ok(frame) => step matches GrabStep::Finish { result: Ok(Some(f)), .. } && f
                    == frame,
                Err(e) => step matches GrabStep::Finish { result: Err(told), .. } && told == e,
            },
        },
        step matches GrabStep::Finish { unmap, release, .. } ==> release == (event
            !is AcquireFailed) && unmap == (event is Read),
{
}

/// A request that was taken up and is not answered yet.
pub enum Unanswered {
    /// There is none.
    Nothing,
    /// A frame is wanted from the capturer that is being made.
    Retry,
    /// The error to answer with.
    Failed(CaptureError),
}

/// Where the capture thread stands: which event is awaited.
pub enum WorkerPhase {
    Creating(Unanswered),
    Idle,
    Grabbing,
    Answering,
    Over,
}

/// What came of the last step of the capture thread.
pub enum WorkerEvent {
    /// A capturer was made, or not.
    Created(bool),
    /// A request came in.
    Requested(GrabRequest),
    /// No request can come in any more.
    Closed,
    /// The capturer took a frame, or not.
    Grabbed(Result<Option<Frame>, CaptureError>),
    /// The answer was handed over.
    Answered,
}

/// What the capture thread has to do next.
pub enum WorkerStep {
    /// Drop the capturer, sleep, and make one anew.
    Create { delay_ms: u64, plan: CapturerPlan },
    /// Wait for a request.
    WaitRequest,
    /// Take a frame with the capturer.
    Grab,
    /// Answer the request.
    Answer(Result<Option<Frame>, CaptureError>),
    /// Leave the thread.
    Exit,
}

/// The capture thread: what it captures and whether it has a capturer.
pub struct CaptureWorker {
    pub target: Target,
    pub ready: bool,
    pub phase: WorkerPhase,
}

/// The pause before a capturer is made for a request that found none.
pub const MISSING_DELAY_MS: u64 = 500;

/// The pause before a capturer is made anew after a failure.
pub const FAILURE_DELAY_MS: u64 = 200;

impl CaptureWorker {
    /// Whether an event answers the last step.
    pub open spec fn expects(self, event: WorkerEvent) -> bool {
        match event {
            WorkerEvent::Created(_) => self.phase is Creating,
            WorkerEvent::Requested(_) => self.phase is Idle,
            WorkerEvent::Closed => self.phase is Idle,
            WorkerEvent::Grabbed(_) => self.phase is Grabbing,
            WorkerEvent::Answered => self.phase is Answering,
        }
    }

    /// The thread and its step after a failure: the capturer is dropped and
    /// made anew before the failure is answered.
    pub open spec fn failed(self, e: CaptureError) -> (CaptureWorker, WorkerStep) {
        (
            CaptureWorker {
                target: self.target,
                ready: false,
                phase: WorkerPhase::Creating(Unanswered::Failed(e)),
            },
            WorkerStep::Create { delay_ms: FAILURE_DELAY_MS, plan: plan_for(self.target) },
        )
    }

    /// The thread and its step after an event.
    pub open spec fn next(self, event: WorkerEvent) -> (CaptureWorker, WorkerStep) {
        match event {
            WorkerEvent::Created(ready) => match self.phase {
                WorkerPhase::Creating(Unanswered::Retry) => if ready {
                    (
                        CaptureWorker {
                            target: self.target,
                            ready: true,
                            phase: WorkerPhase::Grabbing,
                        },
                        WorkerStep::Grab,
                    )
                } else {
                    self.failed(CaptureError::Unavailable)
                },
                WorkerPhase::Creating(Unanswered::Failed(e)) => (
                    CaptureWorker {
                        target: self.target,
                        ready: ready,
                        phase: WorkerPhase::Answering,
                    },
                    WorkerStep::Answer(Err(e)),
                ),
                _ => (
                    CaptureWorker { target: self.target, ready: ready, phase: WorkerPhase::Idle },
                    WorkerStep::WaitRequest,
                ),
            },
            WorkerEvent::Requested(GrabRequest::SetTarget(target)) => (
                CaptureWorker {
                    target: target,
                    ready: false,
                    phase: WorkerPhase::Creating(Unanswered::Nothing),
                },
                WorkerStep::Create { delay_ms: 0, plan: plan_for(target) },
            ),
            WorkerEvent::Requested(GrabRequest::Grab) => if self.ready {
                (
                    CaptureWorker {
                        target: self.target,
                        ready: true,
                        phase: WorkerPhase::Grabbing,
                    },
                    WorkerStep::Grab,
                )
            } else {
                (
                    CaptureWorker {
                        target: self.target,
                        ready: false,
                        phase: WorkerPhase::Creating(Unanswered::Retry),
                    },
                    WorkerStep::Create { delay_ms: MISSING_DELAY_MS, plan: plan_for(self.target) },
                )
            },
            WorkerEvent::Closed => (
                CaptureWorker { target: self.target, ready: self.ready, phase: WorkerPhase::Over },
                WorkerStep::Exit,
            ),
            WorkerEvent::Grabbed(Ok(frame)) => (
                CaptureWorker {
                    target: self.target,
                    ready: self.ready,
                    phase: WorkerPhase::Answering,
                },
                WorkerStep::Answer(Ok(frame)),
            ),
            WorkerEvent::Grabbed(Err(e)) => self.failed(e),
            WorkerEvent::Answered => (
                CaptureWorker { target: self.target, ready: self.ready, phase: WorkerPhase::Idle },
                WorkerStep::WaitRequest,
            ),
        }
    }

    /// Begins the thread: a capturer for the target is made first.
    pub fn start(target: Target) -> (r: (CaptureWorker, WorkerStep))
        ensures
            r.0 == (CaptureWorker {
                target: target,
                ready: false,
                phase: WorkerPhase::Creating(Unanswered::Nothing),
            }),
            r.1 == (WorkerStep::Create { delay_ms: 0, plan: plan_for(target) }),
    {
        let plan: CapturerPlan = create_capturer(&target);
        (
            CaptureWorker {
                target: target,
                ready: false,
                phase: WorkerPhase::Creating(Unanswered::Nothing),
            },
            WorkerStep::Create { delay_ms: 0, plan: plan },
        )
    }

    fn fail(&mut self, e: CaptureError) -> (step: WorkerStep)
        ensures
            (*final(self), step) == old(self).failed(e),
    {
        self.ready = false;
        self.phase = WorkerPhase::Creating(Unanswered::Failed(e));
        WorkerStep::Create { delay_ms: FAILURE_DELAY_MS, plan: create_capturer(&self.target) }
    }

    /// Takes what came of the last step and says what to do next.
    pub fn on_event(&mut self, event: WorkerEvent) -> (step: WorkerStep)
        requires
            old(self).expects(event),
        ensures
            (*final(self), step) == old(self).next(event),
    {
        match event {
            WorkerEvent::Created(ready) => {
                let mut phase: WorkerPhase = WorkerPhase::Idle;
                std::mem::swap(&mut phase, &mut self.phase);
                match phase {
                    WorkerPhase::Creating(Unanswered::Retry) => {
                        if ready {
                            self.ready = true;
                            self.phase = WorkerPhase::Grabbing;
                            WorkerStep::Grab
                        } else {
                            self.fail(CaptureError::Unavailable)
                        }
                    },
                    WorkerPhase::Creating(Unanswered::Failed(e)) => {
                        self.ready = ready;
                        self.phase = WorkerPhase::Answering;
                        WorkerStep::Answer(Err(e))
                    },
                    _ => {
                        self.ready = ready;
                        self.phase = WorkerPhase::Idle;
                        WorkerStep::WaitRequest
                    },
                }
            },
            WorkerEvent::Requested(GrabRequest::SetTarget(target)) => {
                let plan: CapturerPlan = create_capturer(&target);
                self.target = target;
                self.ready = false;
                self.phase = WorkerPhase::Creating(Unanswered::Nothing);
                WorkerStep::Create { delay_ms: 0, plan: plan }
            },
            WorkerEvent::Requested(GrabRequest::Grab) => {
                if self.ready {
                    self.phase = WorkerPhase::Grabbing;
                    WorkerStep::Grab
                } else {
                    self.phase = WorkerPhase::Creating(Unanswered::Retry);
                    WorkerStep::Create {
                        delay_ms: MISSING_DELAY_MS,
                        plan: create_capturer(&self.target),
                    }
                }
            },
            WorkerEvent::Closed => {
                self.phase = WorkerPhase::Over;
                WorkerStep::Exit
            },
            WorkerEvent::Grabbed(Ok(frame)) => {
                self.phase = WorkerPhase::Answering;
                WorkerStep::Answer(Ok(frame))
            },
            WorkerEvent::Grabbed(Err(e)) => self.fail(e),
            WorkerEvent::Answered => {
                self.phase = WorkerPhase::Idle;
                WorkerStep::WaitRequest
            },
        }
    }
}

/// Whether the thread is as its steps leave it: it takes frames only with a
/// capturer, and while one is being made it has none.
pub open spec fn worker_wf(w: CaptureWorker) -> bool {
    &&& (w.phase is Grabbing ==> w.ready)
    &&& (w.phase is Creating ==> !w.ready)
}

/// The thread stays as its steps leave it, whatever happens, and takes a frame
/// only with a capturer.
pub proof fn worker_stays_wf(w: CaptureWorker, event: WorkerEvent)
    requires
        worker_wf(w),
        w.expects(event),
    ensures
        worker_wf(w.next(event).0),
        w.next(event).1 == WorkerStep::Grab ==> w.next(event).0.ready,
{
}

/// Every failed request for a frame is answered with the first failure, after
/// exactly one more attempt to make a capturer, whatever comes of it.
pub proof fn failures_are_answered(w: CaptureWorker, e: CaptureError, ready: bool)
    requires
        w.phase is Grabbing,
    ensures
        ({
            let (failed, step) = w.next(WorkerEvent::Grabbed(Err(e)));
            &&& step == (WorkerStep::Create { delay_ms: FAILURE_DELAY_MS, plan: plan_for(w.target) })
            &&& failed.expects(WorkerEvent::Created(ready))
            &&& failed.next(WorkerEvent::Created(ready)).1 == WorkerStep::Answer(Err(e))
        }),
{
}

/// The capture thread captures what it was last told to: a request for another
/// target has a capturer made for that one at once, every other event leaves the
/// target, and every capturer is made for it.
pub proof fn the_thread_captures_its_target(
    worker: &&mut CaptureWorker,
    before: CaptureWorker,
    after: CaptureWorker,
    event: WorkerEvent,
    step: WorkerStep,
)
    requires
        call_ensures(CaptureWorker::on_event, (*worker, event), step),
        before == **worker,
        after == *final(*worker),
        before.expects(event),
    ensures
        event matches WorkerEvent::Requested(GrabRequest::SetTarget(target)) ==> after.target
            == target && !after.ready && (step matches WorkerStep::Create { delay_ms: 0, .. }),
        !(event matches WorkerEvent::Requested(GrabRequest::SetTarget(_))) ==> after.target
            == before.target,
        step matches WorkerStep::Create { plan, .. } ==> match after.target {
            Target::Monitor(n) => plan == CapturerPlan::Output(n),
            Target::Window(title) => plan == CapturerPlan::Window(title),
            Target::Combined => plan is AllOutputs,
        },
{
}

/// Every request for a frame is answered once, and nothing else is: with the
/// frame as it was taken, or with the failure. Where there is no capturer half a
/// second passes before one is made, and after a failure a fifth of a second.
pub proof fn requests_for_frames_are_answered(
    worker: &&mut CaptureWorker,
    before: CaptureWorker,
    after: CaptureWorker,
    event: WorkerEvent,
    step: WorkerStep,
)
    requires
        call_ensures(CaptureWorker::on_event, (*worker, event), step),
        before == **worker,
        after == *final(*worker),
        before.expects(event),
        worker_wf(before),
    ensures
        worker_wf(after),
        event == WorkerEvent::Requested(GrabRequest::Grab) ==> if before.ready {
            step is Grab
        } else {
            step matches WorkerStep::Create { delay_ms: 500, .. } && after.phase
                == WorkerPhase::Creating(Unanswered::Retry)
        },
        event matches WorkerEvent::Grabbed(Ok(frame)) ==> step == WorkerStep::Answer(Ok(frame))
            && after.ready == before.ready,
        event matches WorkerEvent::Grabbed(Err(e)) ==> (step matches WorkerStep::Create {
            delay_ms: 200,
            ..
        }) && after.phase == WorkerPhase::Creating(Unanswered::Failed(e)),
        event matches WorkerEvent::Created(ready) ==> match before.phase {
            WorkerPhase::Creating(Unanswered::Failed(e)) => step == WorkerStep::Answer(Err(e))
                && after.ready == ready,
            WorkerPhase::Creating(Unanswered::Retry) => if ready {
                step is Grab && after.ready
            } else {
                (step matches WorkerStep::Create { delay_ms: 200, .. }) && after.phase
                    == WorkerPhase::Creating(Unanswered::Failed(CaptureError::Unavailable))
            },
            _ => step is WaitRequest && after.ready == ready,
        },
        step is Answer <==> after.phase is Answering,
        step is Grab <==> after.phase is Grabbing,
        step is Create <==> after.phase is Creating,
        step is Exit <==> event is Closed,
        event is Answered ==> step is WaitRequest && after.ready == before.ready,
{
}

/// The capture thread begins with making a capturer for its target, at once.
pub proof fn the_thread_begins_with_its_target(target: Target, r: (CaptureWorker, WorkerStep))
    requires
        call_ensures(CaptureWorker::start, (target,), r),
    ensures
        r.0.target == target,
        !r.0.ready,
        worker_wf(r.0),
        r.1 matches WorkerStep::Create { delay_ms, plan } && delay_ms == 0 && match target {
            Target::Monitor(n) => plan == CapturerPlan::Output(n),
            Target::Window(title) => plan == CapturerPlan::Window(title),
            Target::Combined => plan is AllOutputs,
        },
{
}

} // verus!
