//! The H.264 encoder of the graphics card: how it is set up, and how one frame
//! goes through it.

use bytes::Bytes;
use vstd::prelude::*;
use vstd::string::*;

use crate::annexb::{buffer_rows, byte_rows, split_annex_b, units};
use crate::capture::{ends_with, Frame};
use crate::graphics::{encoder_source, encoder_staging, encoder_textures, TexturePlan};
use crate::pixels::{rows_stand_at_their_pitch, rows_written, write_rows};
use crate::text::{decimal, push_decimal};
use crate::trusted::buffer_from;

verus! {

/// How pictures are encoded.
#[derive(Clone, Copy, Debug, PartialEq, Eq, Structural)]
pub enum VideoCodec {
    H264,
}

/// Which features of the codec may be used.
#[derive(Clone, Copy, Debug, PartialEq, Eq, Structural)]
pub enum Profile {
    High,
}

/// How the bits are spread over time.
#[derive(Clone, Copy, Debug, PartialEq, Eq, Structural)]
pub enum RateControl {
    Constant,
}

/// The balance between speed and quality.
#[derive(Clone, Copy, Debug, PartialEq, Eq, Structural)]
pub enum Preset {
    P4,
}

/// What the encoder is tuned for.
#[derive(Clone, Copy, Debug, PartialEq, Eq, Structural)]
pub enum Tuning {
    UltraLowLatency,
}

/// The order of the channels of a pixel that the encoder reads, from the highest
/// byte of a word on.
#[derive(Clone, Copy, Debug, PartialEq, Eq, Structural)]
pub enum BufferFormat {
    Abgr,
}

/// How the encoder spends its bits.
#[derive(Clone, Copy, Debug, PartialEq, Eq, Structural)]
pub struct EncodeConfig {
    pub profile: Profile,
    pub gop_len: u32,
    pub frame_interval_p: i32,
    pub rate_control: RateControl,
    pub average_bit_rate: u32,
}

/// What the encoder is initialised with.
#[derive(Clone, Copy, Debug, PartialEq, Eq)]
pub struct InitParams {
    pub codec: VideoCodec,
    pub preset: Preset,
    pub tuning: Tuning,
    pub width: u32,
    pub height: u32,
    pub aspect_ratio: (u32, u32),
    pub largest_size: (u32, u32),
    pub frame_rate: u32,
    pub frame_rate_den: u32,
    pub buffer_format: BufferFormat,
    pub enable_ptd: bool,
    pub config: EncodeConfig,
}

/// The bits per second of the stream.
pub const AVERAGE_BIT_RATE: u32 = 8_000_000;

/// How the encoder spends its bits at a frame rate: with the high profile, at a
/// constant rate, one reference frame before each frame, and in groups of
/// pictures that last two seconds.
pub open spec fn config_for(fps: u32) -> EncodeConfig {
    EncodeConfig {
        profile: Profile::High,
        gop_len: (fps * 2) as u32,
        frame_interval_p: 1,
        rate_control: RateControl::Constant,
        average_bit_rate: AVERAGE_BIT_RATE,
    }
}

/// How the encoder spends its bits at a frame rate.
pub fn configure_config(fps: u32) -> (r: EncodeConfig)
    requires
        fps * 2 <= u32::MAX,
    ensures
        r == config_for(fps),
{
    EncodeConfig {
        profile: Profile::High,
        gop_len: fps * 2,
        frame_interval_p: 1,
        rate_control: RateControl::Constant,
        average_bit_rate: AVERAGE_BIT_RATE,
    }
}

/// The steps in which an encoder is set up, in their order.
#[derive(Clone, Copy, Debug, PartialEq, Eq, Structural)]
pub enum SetupStep {
    CreateDevice,
    OpenSession,
    GetPreset,
    InitEncoder,
    StagingTexture,
    DefaultTexture,
    RegisterTexture,
    CreateBitstream,
}

impl SetupStep {
    /// The step after a step.
    pub open spec fn following(self) -> Option<SetupStep> {
        match self {
            SetupStep::CreateDevice => Some(SetupStep::OpenSession),
            SetupStep::OpenSession => Some(SetupStep::GetPreset),
            SetupStep::GetPreset => Some(SetupStep::InitEncoder),
            SetupStep::InitEncoder => Some(SetupStep::StagingTexture),
            SetupStep::StagingTexture => Some(SetupStep::DefaultTexture),
            SetupStep::DefaultTexture => Some(SetupStep::RegisterTexture),
            SetupStep::RegisterTexture => Some(SetupStep::CreateBitstream),
            SetupStep::CreateBitstream => None,
        }
    }

    fn after(&self) -> (r: Option<SetupStep>)
        ensures
            r == self.following(),
    {
        match self {
            SetupStep::CreateDevice => Some(SetupStep::OpenSession),
            SetupStep::OpenSession => Some(SetupStep::GetPreset),
            SetupStep::GetPreset => Some(SetupStep::InitEncoder),
            SetupStep::InitEncoder => Some(SetupStep::StagingTexture),
            SetupStep::StagingTexture => Some(SetupStep::DefaultTexture),
            SetupStep::DefaultTexture => Some(SetupStep::RegisterTexture),
            SetupStep::RegisterTexture => Some(SetupStep::CreateBitstream),
            SetupStep::CreateBitstream => None,
        }
    }

    /// What stands before the reason when a step fails. A new encoder hands on
    /// what the device and the textures say; one that is set up again says
    /// which texture it was.
    pub open spec fn complaint(self, again: bool) -> Seq<char> {
        match self {
            SetupStep::CreateDevice => Seq::empty(),
            SetupStep::OpenSession => "NVENC open_dx failed: "@,
            SetupStep::GetPreset => "get preset config failed: "@,
            SetupStep::InitEncoder => "NVENC init_encoder failed: "@,
            SetupStep::StagingTexture => if again {
                "create staging texture failed: "@
            } else {
                Seq::empty()
            },
            SetupStep::DefaultTexture => if again {
                "create default texture failed: "@
            } else {
                Seq::empty()
            },
            SetupStep::RegisterTexture => "register_resource_dx11 failed: "@,
            SetupStep::CreateBitstream => "create_bitstream_buffer failed: "@,
        }
    }

    fn complain(&self, again: bool, why: &String) -> (r: String)
        ensures
            r@ == self.complaint(again) + why@,
    {
        let mut s: String = match self {
            SetupStep::CreateDevice => String::new(),
            SetupStep::OpenSession => "NVENC open_dx failed: ".to_owned(),
            SetupStep::GetPreset => "get preset config failed: ".to_owned(),
            SetupStep::InitEncoder => "NVENC init_encoder failed: ".to_owned(),
            SetupStep::StagingTexture => if again {
                "create staging texture failed: ".to_owned()
            } else {
                String::new()
            },
            SetupStep::DefaultTexture => if again {
                "create default texture failed: ".to_owned()
            } else {
                String::new()
            },
            SetupStep::RegisterTexture => "register_resource_dx11 failed: ".to_owned(),
            SetupStep::CreateBitstream => "create_bitstream_buffer failed: ".to_owned(),
        };
        s.append(why.as_str());
        s
    }
}

/// An encoder that is being set up: what it is initialised with, and the
/// textures that frames are written to and read from.
pub struct EncoderSetup {
    pub params: InitParams,
    pub staging: TexturePlan,
    pub source: TexturePlan,
    pub step: SetupStep,
    pub again: bool,
}

/// How the setting up goes on.
pub enum SetupOutcome {
    /// Take this step.
    Next(SetupStep),
    /// The encoder is ready.
    Ready(NvencH264Encoder),
    /// There is no encoder.
    Failed(String),
}

/// An encoder for frames of one size.
pub struct NvencH264Encoder {
    width: u32,
    height: u32,
}

/// What the encoder is initialised with for a size and a rate: H.264 at the
/// fourth preset, tuned for the shortest delay, with square pixels and no larger
/// size to come.
pub open spec fn params_for(width: u32, height: u32, fps: u32) -> InitParams {
    InitParams {
        codec: VideoCodec::H264,
        preset: Preset::P4,
        tuning: Tuning::UltraLowLatency,
        width: width,
        height: height,
        aspect_ratio: (width, height),
        largest_size: (width, height),
        frame_rate: fps,
        frame_rate_den: 1,
        buffer_format: BufferFormat::Abgr,
        enable_ptd: true,
        config: config_for(fps),
    }
}

/// An encoder for a size and a rate whose setting up begins, for the first time
/// or again.
pub open spec fn setup_for(width: u32, height: u32, fps: u32, again: bool) -> EncoderSetup {
    EncoderSetup {
        params: params_for(width, height, fps),
        staging: encoder_staging(width, height),
        source: encoder_source(width, height),
        step: SetupStep::CreateDevice,
        again,
    }
}

fn make_setup(width: u32, height: u32, fps: u32, again: bool) -> (r: EncoderSetup)
    requires
        fps * 2 <= u32::MAX,
    ensures
        r == setup_for(width, height, fps, again),
{
    let (staging, source): (TexturePlan, TexturePlan) = encoder_textures(width, height);
    EncoderSetup {
        params: InitParams {
            codec: VideoCodec::H264,
            preset: Preset::P4,
            tuning: Tuning::UltraLowLatency,
            width: width,
            height: height,
            aspect_ratio: (width, height),
            largest_size: (width, height),
            frame_rate: fps,
            frame_rate_den: 1,
            buffer_format: BufferFormat::Abgr,
            enable_ptd: true,
            config: configure_config(fps),
        },
        staging,
        source,
        step: SetupStep::CreateDevice,
        again,
    }
}

impl EncoderSetup {
    /// Takes what came of the current step: the next one follows on success, and
    /// the encoder is ready after the last; a failure ends the setting up.
    pub fn on_result(&mut self, result: Result<(), String>) -> (r: SetupOutcome)
        ensures
            match result {
                Ok(_) => match old(self).step.following() {
                    Some(next) => *final(self) == (EncoderSetup { step: next, ..*old(self) }) && r
                        == SetupOutcome::Next(next),
                    None => *final(self) == *old(self) && (r matches SetupOutcome::Ready(e) && e.size()
                        == (old(self).params.width, old(self).params.height)),
                },
                Err(why) => *final(self) == *old(self) && (r matches SetupOutcome::Failed(m) && m@
                    == old(self).step.complaint(old(self).again) + why@),
            },
    {
        match result {
            Ok(_) => {
                match self.step.after() {
                    Some(next) => {
                        self.step = next;
                        SetupOutcome::Next(next)
                    },
                    None => SetupOutcome::Ready(
                        NvencH264Encoder { width: self.params.width, height: self.params.height },
                    ),
                }
            },
            Err(why) => SetupOutcome::Failed(self.step.complain(self.again, &why)),
        }
    }
}

/// How a picture is encoded.
#[derive(Clone, Copy, Debug, PartialEq, Eq, Structural)]
pub enum PicType {
    P,
    Idr,
}

/// Which lines of a frame a picture holds.
#[derive(Clone, Copy, Debug, PartialEq, Eq, Structural)]
pub enum PicStruct {
    /// All of them.
    Frame,
}

/// How a picture is handed to the encoder. Pictures are not numbered, and the
/// codec is left to its own settings.
#[derive(Clone, Copy, Debug, PartialEq, Eq, Structural)]
pub struct PictureParams {
    pub frame_count: usize,
    pub timestamp: u64,
    pub format: BufferFormat,
    pub pic_struct: PicStruct,
    pub kind: PicType,
}

/// How a picture of a kind is handed to the encoder.
pub open spec fn picture_for(kind: PicType) -> PictureParams {
    PictureParams {
        frame_count: 0,
        timestamp: 0,
        format: BufferFormat::Abgr,
        pic_struct: PicStruct::Frame,
        kind,
    }
}

/// What to do next for a frame that is being encoded.
pub enum EncodeStep {
    /// Copy the frame into the texture of the encoder.
    CopyFrame,
    /// Encode the texture.
    EncodePicture(PictureParams),
    /// Read the encoded stream.
    LockBitstream,
    /// The units of the frame, or why there are none.
    Finish(Result<Vec<Bytes>, String>),
}

/// What came of the last step for a frame.
pub enum EncodeEvent {
    Copied(Result<(), String>),
    Encoded(Result<(), String>),
    Locked(Result<Vec<u8>, String>),
}

/// What is said when a frame has another size than the encoder.
pub open spec fn mismatch_text(width: u32, height: u32, frame: Frame) -> Seq<char> {
    "resolution mismatch: expected "@ + decimal(width as nat) + "x"@ + decimal(height as nat)
        + ", got "@ + decimal(frame.width as nat) + "x"@ + decimal(frame.height as nat)
}

/// What stands before the reason when a picture cannot be encoded.
pub open spec fn encode_complaint(kind: PicType) -> Seq<char> {
    match kind {
        PicType::P => "encode_picture failed: "@,
        PicType::Idr => "encode IDR failed: "@,
    }
}

/// Whether `step` ends the encoding with an error that says `what` and `why`.
pub open spec fn fails_with(step: EncodeStep, what: Seq<char>, why: String) -> bool {
    step matches EncodeStep::Finish(Err(m)) && m@ == what + why@
}

/// Whether `step` is what follows on an event in the encoding of a picture.
pub open spec fn encode_follows(kind: PicType, event: EncodeEvent, step: EncodeStep) -> bool {
    match event {
        EncodeEvent::Copied(Ok(_)) => step == EncodeStep::EncodePicture(picture_for(kind)),
        EncodeEvent::Copied(Err(e)) => fails_with(step, "map staging texture failed: "@, e),
        EncodeEvent::Encoded(Ok(_)) => step == EncodeStep::LockBitstream,
        EncodeEvent::Encoded(Err(e)) => fails_with(step, encode_complaint(kind), e),
        EncodeEvent::Locked(Ok(data)) => step matches EncodeStep::Finish(Ok(nals)) && buffer_rows(
            nals@,
        ) == units(data@),
        EncodeEvent::Locked(Err(e)) => fails_with(step, "lock bitstream failed: "@, e),
    }
}

fn fail(what: &str, why: &String) -> (step: EncodeStep)
    ensures
        fails_with(step, what@, *why),
{
    let mut s: String = what.to_owned();
    s.append(why.as_str());
    EncodeStep::Finish(Err(s))
}

fn unit_buffers(data: &[u8]) -> (r: Vec<Bytes>)
    ensures
        buffer_rows(r@) == units(data@),
{
    let mut rest: Vec<Vec<u8>> = split_annex_b(data);
    let ghost all = byte_rows(rest@);
    let mut turned: Vec<Vec<u8>> = Vec::new();
    while rest.len() > 0
        invariant
            all == byte_rows(rest@) + byte_rows(turned@.reverse()),
        decreases rest@.len(),
    {
        match rest.pop() {
            Some(unit) => {
                turned.push(unit);
            },
            None => {},
        }
        assert(all =~= byte_rows(rest@) + byte_rows(turned@.reverse()));
    }
    let mut out: Vec<Bytes> = Vec::new();
    assert(all =~= buffer_rows(out@) + byte_rows(turned@.reverse()));
    while turned.len() > 0
        invariant
            all == buffer_rows(out@) + byte_rows(turned@.reverse()),
        decreases turned@.len(),
    {
        match turned.pop() {
            Some(unit) => {
                out.push(buffer_from(unit));
            },
            None => {},
        }
        assert(all =~= buffer_rows(out@) + byte_rows(turned@.reverse()));
    }
    assert(all =~= buffer_rows(out@));
    out
}

impl NvencH264Encoder {
    /// The width and height of the frames that the encoder takes.
    pub closed spec fn size(&self) -> (u32, u32) {
        (self.width, self.height)
    }

    /// The width of the frames that the encoder takes.
    pub fn width(&self) -> (r: u32)
        ensures
            r == self.size().0,
    {
        self.width
    }

    /// The height of the frames that the encoder takes.
    pub fn height(&self) -> (r: u32)
        ensures
            r == self.size().1,
    {
        self.height
    }

    /// Begins to set up an encoder for a size and a rate.
    pub fn new(width: u32, height: u32, fps: u32) -> (r: EncoderSetup)
        requires
            fps * 2 <= u32::MAX,
        ensures
            r == setup_for(width, height, fps, false),
    {
        make_setup(width, height, fps, false)
    }

    /// Begins to set up the encoder again for another size and rate. From now on
    /// it takes frames of the new size, also when the setting up fails.
    pub fn reconfigure(&mut self, width: u32, height: u32, fps: u32) -> (r: EncoderSetup)
        requires
            fps * 2 <= u32::MAX,
        ensures
            final(self).size() == (width, height),
            r == setup_for(width, height, fps, true),
    {
        self.width = width;
        self.height = height;
        make_setup(width, height, fps, true)
    }

    fn begin(&self, frame: &Frame) -> (step: EncodeStep)
        ensures
            if frame.width == self.size().0 && frame.height == self.size().1 {
                step == EncodeStep::CopyFrame
            } else {
                step matches EncodeStep::Finish(Err(m)) && m@ == mismatch_text(
                    self.size().0,
                    self.size().1,
                    *frame,
                )
            },
    {
        if frame.width != self.width || frame.height != self.height {
            let mut msg: String = "resolution mismatch: expected ".to_owned();
            push_decimal(&mut msg, self.width as u64);
            msg.append("x");
            push_decimal(&mut msg, self.height as u64);
            msg.append(", got ");
            push_decimal(&mut msg, frame.width as u64);
            msg.append("x");
            push_decimal(&mut msg, frame.height as u64);
            return EncodeStep::Finish(Err(msg));
        }
        EncodeStep::CopyFrame
    }

    /// Encodes a frame: without an event it begins, and refuses a frame of
    /// another size; with one it says what to do next.
    pub fn encode(&self, frame: &Frame, event: Option<EncodeEvent>) -> (step: EncodeStep)
        ensures
            match event {
                Some(e) => encode_follows(PicType::P, e, step),
                None => if frame.width == self.size().0 && frame.height == self.size().1 {
                    step == EncodeStep::CopyFrame
                } else {
                    step matches EncodeStep::Finish(Err(m)) && m@ == mismatch_text(
                        self.size().0,
                        self.size().1,
                        *frame,
                    )
                },
            },
    {
        match event {
            Some(e) => encode_next(PicType::P, e),
            None => self.begin(frame),
        }
    }

    /// Encodes a frame as a key frame, in the same way.
    pub fn encode_keyframe(&self, frame: &Frame, event: Option<EncodeEvent>) -> (step: EncodeStep)
        ensures
            match event {
                Some(e) => encode_follows(PicType::Idr, e, step),
                None => if frame.width == self.size().0 && frame.height == self.size().1 {
                    step == EncodeStep::CopyFrame
                } else {
                    step matches EncodeStep::Finish(Err(m)) && m@ == mismatch_text(
                        self.size().0,
                        self.size().1,
                        *frame,
                    )
                },
            },
    {
        match event {
            Some(e) => encode_next(PicType::Idr, e),
            None => self.begin(frame),
        }
    }

    /// Copies a frame into mapped texture memory, whose rows begin every
    /// `dst_pitch` bytes.
    pub fn copy_frame_to_texture(&self, frame: &Frame, dst: &mut [u8], dst_pitch: u32)
        requires
            self.size().0 * 4 * self.size().1 <= frame.data@.len(),
            self.size().1 > 0 ==> (self.size().1 - 1) * dst_pitch + self.size().0 * 4 <= old(
                dst,
            )@.len(),
        ensures
            final(dst)@ == rows_written(
                old(dst)@,
                dst_pitch as int,
                frame.data@,
                self.size().0 * 4,
                self.size().1 as int,
            ),
    {
        let total: usize = frame.data.len();
        let room: usize = dst.len();
        let w: u32 = self.width;
        let h: u32 = self.height;
        if h == 0 {
            return;
        }
        assert(0 <= (h - 1) * dst_pitch) by (nonlinear_arith)
            requires
                1 <= h,
        ;
        assert(w * 4 * h == h * (w * 4)) by (nonlinear_arith);
        let len: usize = w as usize * 4;
        write_rows(dst, dst_pitch as usize, frame.data.as_slice(), len, h as usize);
    }
}

/// Takes what came of the last step for a picture and says what to do next.
pub fn encode_next(kind: PicType, event: EncodeEvent) -> (step: EncodeStep)
    ensures
        encode_follows(kind, event, step),
{
    match event {
        EncodeEvent::Copied(Ok(_)) => EncodeStep::EncodePicture(
            PictureParams {
                frame_count: 0,
                timestamp: 0,
                format: BufferFormat::Abgr,
                pic_struct: PicStruct::Frame,
                kind,
            },
        ),
        EncodeEvent::Copied(Err(e)) => fail("map staging texture failed: ", &e),
        EncodeEvent::Encoded(Ok(_)) => EncodeStep::LockBitstream,
        EncodeEvent::Encoded(Err(e)) => match kind {
            PicType::P => fail("encode_picture failed: ", &e),
            PicType::Idr => fail("encode IDR failed: ", &e),
        },
        EncodeEvent::Locked(Ok(data)) => EncodeStep::Finish(Ok(unit_buffers(data.as_slice()))),
        EncodeEvent::Locked(Err(e)) => fail("lock bitstream failed: ", &e),
    }
}

/// A frame that holds all its pixels can be copied into every texture of its
/// size.
pub proof fn full_frames_can_be_copied(frame: Frame, encoder: NvencH264Encoder)
    requires
        frame.is_full(),
        encoder.size() == (frame.width, frame.height),
    ensures
        encoder.size().0 * 4 * encoder.size().1 <= frame.data@.len(),
{
    let w = frame.width as int;
    let h = frame.height as int;
    assert(w * 4 * h == w * h * 4) by (nonlinear_arith);
}

/// An encoder is set up for the size and the rate that are wanted: with groups
/// of pictures of two seconds, eight million bits a second, pixels as wide as
/// high, and textures of the same size.
pub proof fn encoders_are_set_up_for_their_frames(width: u32, height: u32, fps: u32, r: EncoderSetup)
    requires
        call_ensures(NvencH264Encoder::new, (width, height, fps), r),
        fps * 2 <= u32::MAX,
    ensures
        r.params.width == width && r.params.height == height,
        r.params.aspect_ratio == (width, height),
        r.params.largest_size == (width, height),
        r.params.frame_rate == fps && r.params.frame_rate_den == 1,
        r.params.config.gop_len == 2 * fps,
        r.params.config.frame_interval_p == 1,
        r.params.config.average_bit_rate == 8_000_000,
        r.params.enable_ptd,
        r.staging.width == width && r.staging.height == height,
        r.source.width == width && r.source.height == height,
        r.staging.format == r.source.format,
        r.step == SetupStep::CreateDevice,
        !r.again,
{
}

/// An encoder that is set up again is set up as a new one of that size and rate
/// would be, and takes frames of that size from then on.
pub proof fn encoders_are_set_up_again_alike(
    encoder: &&mut NvencH264Encoder,
    width: u32,
    height: u32,
    fps: u32,
    r: EncoderSetup,
    new: EncoderSetup,
)
    requires
        call_ensures(NvencH264Encoder::reconfigure, (*encoder, width, height, fps), r),
        call_ensures(NvencH264Encoder::new, (width, height, fps), new),
    ensures
        final(*encoder).size() == (width, height),
        r.params == new.params,
        r.staging == new.staging,
        r.source == new.source,
        r.step == new.step,
        r.again,
{
}

/// How many steps of the setting up come before a step.
pub open spec fn steps_before(step: SetupStep) -> int {
    match step {
        SetupStep::CreateDevice => 0,
        SetupStep::OpenSession => 1,
        SetupStep::GetPreset => 2,
        SetupStep::InitEncoder => 3,
        SetupStep::StagingTexture => 4,
        SetupStep::DefaultTexture => 5,
        SetupStep::RegisterTexture => 6,
        SetupStep::CreateBitstream => 7,
    }
}

/// Each step that worked is followed by the next, in order; only behind the last
/// the encoder is ready, for the size it was set up for. A step that failed ends
/// the setting up, with its reason at the end of what is said.
pub proof fn setups_go_step_by_step(
    setup: &&mut EncoderSetup,
    result: Result<(), String>,
    r: SetupOutcome,
)
    requires
        call_ensures(EncoderSetup::on_result, (*setup, result), r),
    ensures
        r is Ready <==> result is Ok && steps_before(old(*setup).step) == 7,
        r matches SetupOutcome::Next(step) ==> result is Ok && steps_before(step) == steps_before(
            old(*setup).step,
        ) + 1 && final(*setup).step == step,
        result is Ok ==> r is Next || r is Ready,
        r matches SetupOutcome::Ready(e) ==> e.size() == (
            old(*setup).params.width,
            old(*setup).params.height,
        ),
        result matches Err(why) ==> (r matches SetupOutcome::Failed(text) && ends_with(
            text@,
            why@,
        )),
        final(*setup).params == old(*setup).params,
{
    if let Err(why) = result {
        if let SetupOutcome::Failed(text) = r {
            assert(text@.skip(text@.len() - why@.len()) =~= why@);
        }
    }
}

/// A frame is taken exactly if it has the size of the encoder; what is no key
/// frame is encoded as a picture that refers to others, and a key frame as one
/// that does not.
pub proof fn frames_of_the_right_size_are_encoded(
    encoder: NvencH264Encoder,
    frame: Frame,
    event: Option<EncodeEvent>,
    step: EncodeStep,
    key: EncodeStep,
)
    requires
        call_ensures(NvencH264Encoder::encode, (&encoder, &frame, event), step),
        call_ensures(NvencH264Encoder::encode_keyframe, (&encoder, &frame, event), key),
    ensures
        event is None ==> {
            let fits = (frame.width, frame.height) == encoder.size();
            &&& fits ==> step is CopyFrame && key is CopyFrame
            &&& !fits ==> (step matches EncodeStep::Finish(Err(_))) && (
            key matches EncodeStep::Finish(Err(_)))
        },
        event == Some(EncodeEvent::Copied(Ok(()))) ==> (step matches EncodeStep::EncodePicture(p)
            && p.kind == PicType::P) && (key matches EncodeStep::EncodePicture(p) && p.kind
            == PicType::Idr),
{
}

/// What was encoded is read and taken apart into its units; a failure is told
/// with its reason.
pub proof fn encoded_frames_are_taken_apart(kind: PicType, event: EncodeEvent, step: EncodeStep)
    requires
        call_ensures(encode_next, (kind, event), step),
    ensures
        match event {
            EncodeEvent::Copied(r) => match r {
                Ok(_) => step matches EncodeStep::EncodePicture(p) && p.kind == kind
                    && p.frame_count == 0 && p.timestamp == 0,
                Err(e) => ends_for(step, e),
            },
            EncodeEvent::Encoded(r) => match r {
                Ok(_) => step is LockBitstream,
                Err(e) => ends_for(step, e),
            },
            EncodeEvent::Locked(r) => match r {
                Ok(data) => step matches EncodeStep::Finish(Ok(nals)) && buffer_rows(nals@)
                    == units(data@),
                Err(e) => ends_for(step, e),
            },
        },
{
    if let EncodeStep::Finish(Err(text)) = step {
        let e = match event {
            EncodeEvent::Copied(Err(e)) => e,
            EncodeEvent::Encoded(Err(e)) => e,
            EncodeEvent::Locked(Err(e)) => e,
            _ => text,
        };
        assert(text@.skip(text@.len() - e@.len()) =~= e@);
    }
}

/// Whether a step ends the encoding with a complaint that ends with the reason.
pub open spec fn ends_for(step: EncodeStep, why: String) -> bool {
    step matches EncodeStep::Finish(Err(text)) && ends_with(text@, why@)
}

/// A frame is copied into the texture row by row: byte `j` of row `row` stands
/// that far behind the beginning of the row in the texture, and what lies
/// between the rows stays.
pub proof fn frames_are_copied_row_by_row(
    encoder: NvencH264Encoder,
    frame: Frame,
    dst: &&mut [u8],
    before: Seq<u8>,
    after: Seq<u8>,
    pitch: u32,
    row: int,
    j: int,
    gap: int,
)
    requires
        call_ensures(NvencH264Encoder::copy_frame_to_texture, (&encoder, &frame, *dst, pitch), ()),
        before == (**dst)@,
        after == final(*dst)@,
        frame.is_full(),
        encoder.size() == (frame.width, frame.height),
        0 < frame.width,
        frame.width * 4 <= pitch,
        (frame.height - 1) * pitch + frame.width * 4 <= before.len(),
        0 <= row < frame.height,
        0 <= j < frame.width * 4,
        0 <= gap < before.len(),
        gap / (pitch as int) >= frame.height || gap % (pitch as int) >= frame.width * 4,
    ensures
        after.len() == before.len(),
        after[row * pitch + j] == frame.data@[row * (frame.width * 4) + j],
        after[gap] == before[gap],
{
    let w = frame.width as int;
    let h = frame.height as int;
    assert(h * (w * 4) == w * h * 4) by (nonlinear_arith);
    rows_stand_at_their_pitch(before, pitch as int, frame.data@, w * 4, h, row, j, gap);
}

/// An encoder tells the size that it was set up for.
pub proof fn encoders_tell_their_size(
    setup: &&mut EncoderSetup,
    encoder: NvencH264Encoder,
    width: u32,
    height: u32,
)
    requires
        call_ensures(EncoderSetup::on_result, (*setup, Ok(())), SetupOutcome::Ready(encoder)),
        call_ensures(NvencH264Encoder::width, (&encoder,), width),
        call_ensures(NvencH264Encoder::height, (&encoder,), height),
    ensures
        width == old(*setup).params.width,
        height == old(*setup).params.height,
{
}

/// A frame of another size is refused with both sizes.
pub proof fn refused_frames_are_told_their_size(
    encoder: NvencH264Encoder,
    frame: Frame,
    step: EncodeStep,
)
    requires
        call_ensures(NvencH264Encoder::encode, (&encoder, &frame, None), step),
        (frame.width, frame.height) != encoder.size(),
    ensures
        step matches EncodeStep::Finish(Err(text)) && text@ == "resolution mismatch: expected "@
            + decimal(encoder.size().0 as nat) + "x"@ + decimal(encoder.size().1 as nat)
            + ", got "@ + decimal(frame.width as nat) + "x"@ + decimal(frame.height as nat),
{
}

/// A frame that cannot be encoded tells which step failed, then the reason; a key
/// frame is told apart.
pub proof fn failed_frames_tell_the_step(kind: PicType, event: EncodeEvent, text: String)
    requires
        call_ensures(encode_next, (kind, event), EncodeStep::Finish(Err(text))),
    ensures
        match event {
            EncodeEvent::Copied(Err(e)) => text@ == "map staging texture failed: "@ + e@,
            EncodeEvent::Encoded(Err(e)) => text@ == (if kind is Idr {
                "encode IDR failed: "@
            } else {
                "encode_picture failed: "@
            }) + e@,
            EncodeEvent::Locked(Err(e)) => text@ == "lock bitstream failed: "@ + e@,
            _ => false,
        },
{
}

/// An encoder that cannot be set up tells which step failed, then the reason. A
/// device hands its reason on as it is, and so do the textures of an encoder that
/// is set up for the first time.
pub proof fn failed_setups_tell_the_step(setup: &&mut EncoderSetup, why: String, text: String)
    requires
        call_ensures(EncoderSetup::on_result, (*setup, Err(why)), SetupOutcome::Failed(text)),
    ensures
        match old(*setup).step {
            SetupStep::CreateDevice => text@ == why@,
            SetupStep::OpenSession => text@ == "NVENC open_dx failed: "@ + why@,
            SetupStep::GetPreset => text@ == "get preset config failed: "@ + why@,
            SetupStep::InitEncoder => text@ == "NVENC init_encoder failed: "@ + why@,
            SetupStep::StagingTexture => if old(*setup).again {
                text@ == "create staging texture failed: "@ + why@
            } else {
                text@ == why@
            },
            SetupStep::DefaultTexture => if old(*setup).again {
                text@ == "create default texture failed: "@ + why@
            } else {
                text@ == why@
            },
            SetupStep::RegisterTexture => text@ == "register_resource_dx11 failed: "@ + why@,
            SetupStep::CreateBitstream => text@ == "create_bitstream_buffer failed: "@ + why@,
        },
{
}

} // verus!
