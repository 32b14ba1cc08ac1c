//! How a viewer's offer is answered, and what becomes of the viewer then.

use std::time::Duration;

use axum::http::{HeaderMap, HeaderValue};
use rtc::interceptor::Registry;
use rtc::peer_connection::configuration::media_engine::MediaEngine;
use rtc::peer_connection::sdp::RTCSessionDescription;
use vstd::prelude::*;
use vstd::string::*;

use crate::audio::AudioSettings;
use crate::auth::{shown_token, StatusCode};
use crate::broadcast::Broadcaster;
use crate::capture::ends_with;
use crate::signaling::{
    candidate_posted, has_session, keeps_sessions, lasting_sessions_are_found, lasting_sessions_are_kept,
    session_of, sessions_checked, take_waiting, validate_token, waiting, AppState, CandidateStep,
    ConnHandler, IceCandidate,
};
use crate::text::{joined, same_text};
use crate::trusted::{
    default_extensions, engine_codecs, engine_extensions, engine_interceptors, engine_new,
    engine_register, offer_fault, random_byte, session_offer, session_sdp,
};

verus! {

/// Pictures or sound.
#[derive(Clone, Copy, Debug, PartialEq, Eq, Structural)]
pub enum MediaKind {
    Video,
    Audio,
}

/// How pictures or sound are encoded on the way.
#[derive(Clone, Copy, Debug)]
pub struct Codec {
    pub mime_type: &'static str,
    pub clock_rate: u32,
    pub channels: u16,
    pub sdp_fmtp_line: &'static str,
    pub payload_type: u8,
}

impl Codec {
    /// The codec in plain values.
    pub open spec fn view(&self) -> (Seq<char>, u32, u16, Seq<char>, u8) {
        (
            self.mime_type@,
            self.clock_rate,
            self.channels,
            self.sdp_fmtp_line@,
            self.payload_type,
        )
    }
}

/// The payload type that pictures have unless another is agreed on.
pub const VIDEO_PAYLOAD_TYPE: u8 = 96;

/// The payload type that sound has unless another is agreed on.
pub const AUDIO_PAYLOAD_TYPE: u8 = 111;

/// The codec of pictures or of sound.
pub open spec fn codec_view(kind: MediaKind) -> (Seq<char>, u32, u16, Seq<char>, u8) {
    match kind {
        MediaKind::Video => (
            "video/H264"@,
            90000u32,
            0u16,
            "level-asymmetry-allowed=1;packetization-mode=1;profile-level-id=640033"@,
            VIDEO_PAYLOAD_TYPE,
        ),
        MediaKind::Audio => ("audio/opus"@, 48000u32, 2u16, ""@, AUDIO_PAYLOAD_TYPE),
    }
}

/// The codec of pictures or of sound.
pub fn codec_of(kind: MediaKind) -> (r: Codec)
    ensures
        r.view() == codec_view(kind),
{
    match kind {
        MediaKind::Video => Codec {
            mime_type: "video/H264",
            clock_rate: 90000,
            channels: 0,
            sdp_fmtp_line: "level-asymmetry-allowed=1;packetization-mode=1;profile-level-id=640033",
            payload_type: VIDEO_PAYLOAD_TYPE,
        },
        MediaKind::Audio => Codec {
            mime_type: "audio/opus",
            clock_rate: 48000,
            channels: 2,
            sdp_fmtp_line: "",
            payload_type: AUDIO_PAYLOAD_TYPE,
        },
    }
}

/// A refused offer.
#[derive(Debug)]
pub struct Refusal {
    pub status: StatusCode,
    pub text: String,
}

/// Whether a refusal says that `what` went wrong, and `why`.
pub open spec fn refuses(r: Refusal, status: StatusCode, what: Seq<char>, why: Seq<char>) -> bool {
    r.status == status && r.text@ == what + why
}

fn refusal(status: StatusCode, what: &str, why: &str) -> (r: Refusal)
    ensures
        refuses(r, status, what@, why@),
{
    Refusal { status, text: joined(what, why) }
}

/// Whether an engine knows one codec for pictures and one for sound, and the
/// usual header extensions.
pub open spec fn knows_codecs(engine: MediaEngine) -> bool {
    &&& engine_extensions(engine) == default_extensions()
    &&& engine_codecs(engine, true) == seq![codec_view(MediaKind::Video)]
    &&& engine_codecs(engine, false) == seq![codec_view(MediaKind::Audio)]
}

/// The engine for a connection: it knows one codec for pictures, one for sound
/// and the usual header extensions.
pub fn media_engine() -> (r: Result<(MediaEngine, Registry), Refusal>)
    ensures
        r matches Ok(made) && knows_codecs(made.0),
{
    let mut engine: MediaEngine = engine_new();
    match engine_register(&mut engine, &codec_of(MediaKind::Video), MediaKind::Video) {
        Ok(_) => {},
        Err(e) => {
            return Err(refusal(StatusCode::InternalServerError, "register codec: ", e.as_str()));
        },
    }
    match engine_register(&mut engine, &codec_of(MediaKind::Audio), MediaKind::Audio) {
        Ok(_) => {},
        Err(e) => {
            return Err(
                refusal(StatusCode::InternalServerError, "register audio codec: ", e.as_str()),
            );
        },
    }
    assert(engine_codecs(engine, true) =~= seq![codec_view(MediaKind::Video)]);
    assert(engine_codecs(engine, false) =~= seq![codec_view(MediaKind::Audio)]);
    match engine_interceptors(&mut engine) {
        Ok(registry) => Ok((engine, registry)),
        Err(e) => Err(refusal(StatusCode::InternalServerError, "interceptors: ", e.as_str())),
    }
}

/// A track that goes to the viewer.
#[derive(Debug)]
pub struct TrackPlan {
    pub stream_id: &'static str,
    pub track_id: &'static str,
    pub label: &'static str,
    pub kind: MediaKind,
    pub ssrc: u32,
    pub codec: Codec,
}

/// Whether a plan is for the pictures or the sound that go out under `ssrc`.
pub open spec fn plans_track(plan: TrackPlan, kind: MediaKind, ssrc: u32) -> bool {
    &&& plan.kind == kind
    &&& plan.ssrc == ssrc
    &&& plan.codec.view() == codec_view(kind)
    &&& plan.stream_id@ == match kind {
        MediaKind::Video => "ffscreencast-stream"@,
        MediaKind::Audio => "ffscreencast-audio-stream"@,
    }
    &&& plan.track_id@ == match kind {
        MediaKind::Video => "ffscreencast-track"@,
        MediaKind::Audio => "ffscreencast-audio-track"@,
    }
    &&& plan.label@ == match kind {
        MediaKind::Video => "ffscreencast"@,
        MediaKind::Audio => "ffscreencast-audio"@,
    }
}

fn track_plan(kind: MediaKind, ssrc: u32) -> (r: TrackPlan)
    ensures
        plans_track(r, kind, ssrc),
{
    match kind {
        MediaKind::Video => TrackPlan {
            stream_id: "ffscreencast-stream",
            track_id: "ffscreencast-track",
            label: "ffscreencast",
            kind,
            ssrc,
            codec: codec_of(kind),
        },
        MediaKind::Audio => TrackPlan {
            stream_id: "ffscreencast-audio-stream",
            track_id: "ffscreencast-audio-track",
            label: "ffscreencast-audio",
            kind,
            ssrc,
            codec: codec_of(kind),
        },
    }
}

/// A number by chance, from which a track is known.
fn random_ssrc() -> (r: u32) {
    let a: u32 = random_byte() as u32;
    let b: u32 = random_byte() as u32;
    let c: u32 = random_byte() as u32;
    let d: u32 = random_byte() as u32;
    a * 0x100_0000 + b * 0x1_0000 + c * 0x100 + d
}

/// An offer of a viewer.
#[derive(Debug)]
pub struct OfferRequest {
    pub sdp: String,
    pub kind: String,
}

/// The answer to an offer.
#[derive(Debug)]
pub struct AnswerResponse {
    pub sdp: String,
    pub kind: String,
}

/// What has to be done next for an offer.
pub enum OfferStep {
    /// Make a connection with the engine, asking these servers for the
    /// addresses of this machine, watched by the handler.
    BuildPeer {
        engine: MediaEngine,
        registry: Registry,
        ice_urls: Option<Vec<String>>,
        handler: ConnHandler,
    },
    /// Make a track.
    CreateTrack(TrackPlan),
    /// Add the track of this kind to the connection.
    AddTrack(MediaKind),
    /// Tell the connection what the viewer offers.
    SetRemote(RTCSessionDescription),
    /// Have the connection make an answer.
    CreateAnswer,
    /// Tell the connection to go by its answer.
    SetLocal,
    /// Keep the connection for the session, hand it these addresses of the
    /// viewer, and ask it what it has settled on.
    Deliver(Vec<IceCandidate>),
    /// Send the answer.
    Answer(AnswerResponse),
    /// Refuse the offer.
    Refuse(Refusal),
}

/// How the last step went.
pub enum OfferEvent {
    Done,
    Failed(String),
    /// What the connection has settled on, if anything.
    Settled(Option<String>),
}

/// How far an offer has come.
#[derive(Clone, Copy, Debug, PartialEq, Eq, Structural)]
pub enum OfferPhase {
    Building,
    CreatingVideo,
    AddingVideo,
    CreatingAudio,
    AddingAudio,
    SettingRemote,
    Answering,
    SettingLocal,
    Delivering,
    Over,
}

impl OfferPhase {
    /// What is said of a step that failed.
    pub open spec fn complaint(self) -> Seq<char> {
        match self {
            OfferPhase::Building => "peer build: "@,
            OfferPhase::CreatingVideo => "create track: "@,
            OfferPhase::AddingVideo => "add_track: "@,
            OfferPhase::CreatingAudio => "create audio track: "@,
            OfferPhase::AddingAudio => "add audio track: "@,
            OfferPhase::SettingRemote => "set_remote: "@,
            OfferPhase::Answering => "create_answer: "@,
            OfferPhase::SettingLocal => "set_local: "@,
            OfferPhase::Delivering => ""@,
            OfferPhase::Over => ""@,
        }
    }

    fn complaint_text(self) -> (r: &'static str)
        ensures
            r@ == self.complaint(),
    {
        match self {
            OfferPhase::Building => "peer build: ",
            OfferPhase::CreatingVideo => "create track: ",
            OfferPhase::AddingVideo => "add_track: ",
            OfferPhase::CreatingAudio => "create audio track: ",
            OfferPhase::AddingAudio => "add audio track: ",
            OfferPhase::SettingRemote => "set_remote: ",
            OfferPhase::Answering => "create_answer: ",
            OfferPhase::SettingLocal => "set_local: ",
            OfferPhase::Delivering => "",
            OfferPhase::Over => "",
        }
    }
}

/// An offer that is being answered.
pub struct OfferExchange {
    pub token: String,
    pub sdp: String,
    pub video_ssrc: u32,
    pub audio_ssrc: u32,
    pub phase: OfferPhase,
}

/// The servers to ask for the addresses of this machine: none, or all that are
/// known.
pub open spec fn asks(ice_urls: Option<Vec<String>>, stun_urls: Seq<String>) -> bool {
    match ice_urls {
        Some(urls) => stun_urls.len() > 0 && urls@ == stun_urls,
        None => stun_urls.len() == 0,
    }
}

fn copied(urls: &Vec<String>) -> (r: Vec<String>)
    ensures
        r@ == urls@,
{
    let mut out: Vec<String> = Vec::new();
    let mut i: usize = 0;
    while i < urls.len()
        invariant
            i <= urls@.len(),
            out@ == urls@.take(i as int),
        decreases urls@.len() - i,
    {
        out.push(urls[i].clone());
        assert(out@ =~= urls@.take(i + 1));
        i = i + 1;
    }
    assert(urls@.take(i as int) =~= urls@);
    out
}

/// What an accepted offer begins with.
pub open spec fn offer_begun(
    checked: AppState,
    after: AppState,
    token: Seq<char>,
    req: OfferRequest,
    exchange: OfferExchange,
    step: OfferStep,
) -> bool {
    &&& after.server_candidates.contents().dom() == checked.server_candidates.contents().dom().insert(
        token,
    )
    &&& waiting(after.server_candidates.contents(), token).len() == 0
    &&& forall|k: Seq<char>|
        k != token ==> waiting(after.server_candidates.contents(), k) == #[trigger] waiting(
            checked.server_candidates.contents(),
            k,
        )
    &&& after == AppState { server_candidates: after.server_candidates, ..checked }
    &&& exchange.token@ == token
    &&& exchange.sdp == req.sdp
    &&& exchange.phase == OfferPhase::Building
    &&& match step {
        OfferStep::BuildPeer { engine, registry, ice_urls, handler } => {
            &&& knows_codecs(engine)
            &&& asks(ice_urls, checked.stun_urls@)
            &&& handler.session_token@ == token
        },
        _ => false,
    }
}

/// What comes of an offer for a session: it is accepted if it says that it is
/// one, and otherwise refused with nothing changed.
pub open spec fn offer_taken(
    checked: AppState,
    after: AppState,
    token: Seq<char>,
    req: OfferRequest,
    r: Result<(OfferExchange, OfferStep), Refusal>,
) -> bool {
    if req.kind@ == "offer"@ {
        r matches Ok(begun) && offer_begun(checked, after, token, req, begun.0, begun.1)
    } else {
        after == checked && (r matches Err(refusal) && refuses(
            refusal,
            StatusCode::BadRequest,
            "expected type 'offer', got '"@,
            req.kind@ + "'"@,
        ))
    }
}

/// Takes an offer for a session, or refuses it.
pub fn begin_offer(state: &mut AppState, token: String, req: OfferRequest) -> (r: Result<
    (OfferExchange, OfferStep),
    Refusal,
>)
    requires
        old(state).wf(),
    ensures
        final(state).wf(),
        offer_taken(*old(state), *final(state), token@, req, r),
{
    if !same_text(req.kind.as_str(), "offer") {
        let quoted: String = joined(req.kind.as_str(), "'");
        return Err(
            refusal(StatusCode::BadRequest, "expected type 'offer', got '", quoted.as_str()),
        );
    }
    let (engine, registry): (MediaEngine, Registry) = match media_engine() {
        Ok(made) => made,
        Err(refusal) => {
            return Err(refusal);
        },
    };
    let ice_urls: Option<Vec<String>> = if state.stun_urls.len() > 0 {
        Some(copied(&state.stun_urls))
    } else {
        None
    };
    state.server_candidates.insert(token.clone(), Vec::new());
    let handler: ConnHandler = ConnHandler { session_token: token.clone() };
    let exchange: OfferExchange = OfferExchange {
        token,
        sdp: req.sdp,
        video_ssrc: 0,
        audio_ssrc: 0,
        phase: OfferPhase::Building,
    };
    assert(state.server_candidates.contents().dom() =~= old(
        state,
    ).server_candidates.contents().dom().insert(exchange.token@));
    Ok((exchange, OfferStep::BuildPeer { engine, registry, ice_urls, handler }))
}

/// Takes an offer from a request, or refuses it.
pub fn offer(
    state: &mut AppState,
    headers: &HeaderMap<HeaderValue>,
    now: Duration,
    req: OfferRequest,
) -> (r: Result<(OfferExchange, OfferStep), Refusal>)
    requires
        old(state).wf(),
    ensures
        final(state).wf(),
        match session_of(*old(state), shown_token(*headers), now) {
            None => sessions_checked(
                *old(state),
                *final(state),
                shown_token(*headers) is Some,
                now,
            ) && (r matches Err(refusal) && refusal.status == StatusCode::Unauthorized
                && refusal.text@ == "unauthorized"@),
            Some(token) => exists|checked: AppState|
                #![trigger sessions_checked(*old(state), checked, true, now)]
                sessions_checked(*old(state), checked, true, now) && offer_taken(
                    checked,
                    *final(state),
                    token,
                    req,
                    r,
                ),
        },
{
    match validate_token(state, headers, now) {
        Ok(token) => {
            let ghost checked = *state;
            assert(sessions_checked(*old(state), checked, true, now));
            begin_offer(state, token, req)
        },
        Err(status) => Err(Refusal { status, text: "unauthorized".to_owned() }),
    }
}

impl OfferExchange {
    /// Whether an event can come now.
    pub open spec fn expects(&self, event: OfferEvent) -> bool {
        match self.phase {
            OfferPhase::Over => false,
            OfferPhase::Delivering => event is Settled,
            _ => !(event is Settled),
        }
    }

    /// Whether the exchange went on to a phase with nothing else changed.
    pub open spec fn moved(&self, after: OfferExchange, phase: OfferPhase) -> bool {
        after == OfferExchange { phase, ..*self }
    }

    /// What comes after a step that worked.
    pub open spec fn advances(
        &self,
        before: AppState,
        after: OfferExchange,
        state: AppState,
        step: OfferStep,
    ) -> bool {
        match self.phase {
            OfferPhase::Building => {
                &&& state == before
                &&& after == OfferExchange {
                    phase: OfferPhase::CreatingVideo,
                    video_ssrc: after.video_ssrc,
                    ..*self
                }
                &&& step matches OfferStep::CreateTrack(plan)
                &&& plans_track(plan, MediaKind::Video, after.video_ssrc)
            },
            OfferPhase::CreatingVideo => {
                &&& state == before
                &&& self.moved(after, OfferPhase::AddingVideo)
                &&& step == OfferStep::AddTrack(MediaKind::Video)
            },
            OfferPhase::AddingVideo => {
                &&& state == before
                &&& after == OfferExchange {
                    phase: OfferPhase::CreatingAudio,
                    audio_ssrc: after.audio_ssrc,
                    ..*self
                }
                &&& step matches OfferStep::CreateTrack(plan)
                &&& plans_track(plan, MediaKind::Audio, after.audio_ssrc)
            },
            OfferPhase::CreatingAudio => {
                &&& state == before
                &&& self.moved(after, OfferPhase::AddingAudio)
                &&& step == OfferStep::AddTrack(MediaKind::Audio)
            },
            OfferPhase::AddingAudio => {
                &&& state == before
                &&& match offer_fault(self.sdp@) {
                    None => {
                        &&& self.moved(after, OfferPhase::SettingRemote)
                        &&& step matches OfferStep::SetRemote(description)
                        &&& session_sdp(description) == self.sdp@
                    },
                    Some(fault) => {
                        &&& self.moved(after, OfferPhase::Over)
                        &&& step matches OfferStep::Refuse(refusal)
                        &&& refuses(
                            refusal,
                            StatusCode::BadRequest,
                            "invalid offer SDP: "@,
                            fault,
                        )
                    },
                }
            },
            OfferPhase::SettingRemote => {
                &&& state == before
                &&& self.moved(after, OfferPhase::Answering)
                &&& step == OfferStep::CreateAnswer
            },
            OfferPhase::Answering => {
                &&& state == before
                &&& self.moved(after, OfferPhase::SettingLocal)
                &&& step == OfferStep::SetLocal
            },
            OfferPhase::SettingLocal => {
                &&& self.moved(after, OfferPhase::Delivering)
                &&& step matches OfferStep::Deliver(candidates)
                &&& candidates@ == waiting(
                    before.pending_client_candidates.contents(),
                    self.token@,
                )
                &&& state.pending_client_candidates.contents()
                    == before.pending_client_candidates.contents().remove(self.token@)
                &&& state.peer_connections.contents() == before.peer_connections.contents().insert(
                    self.token@,
                    (),
                )
                &&& state == AppState {
                    pending_client_candidates: state.pending_client_candidates,
                    peer_connections: state.peer_connections,
                    ..before
                }
            },
            _ => false,
        }
    }

    /// What comes after an event.
    pub open spec fn follows(
        &self,
        before: AppState,
        event: OfferEvent,
        after: OfferExchange,
        state: AppState,
        step: OfferStep,
    ) -> bool {
        match event {
            OfferEvent::Done => self.advances(before, after, state, step),
            OfferEvent::Failed(why) => {
                &&& state == before
                &&& self.moved(after, OfferPhase::Over)
                &&& step matches OfferStep::Refuse(refusal)
                &&& refuses(
                    refusal,
                    StatusCode::InternalServerError,
                    self.phase.complaint(),
                    why@,
                )
            },
            OfferEvent::Settled(Some(sdp)) => {
                &&& state == before
                &&& self.moved(after, OfferPhase::Over)
                &&& step matches OfferStep::Answer(answer)
                &&& answer.sdp == sdp
                &&& answer.kind@ == "answer"@
            },
            OfferEvent::Settled(None) => {
                &&& state == before
                &&& self.moved(after, OfferPhase::Over)
                &&& step matches OfferStep::Refuse(refusal)
                &&& refusal.status == StatusCode::InternalServerError
                &&& refusal.text@ == "no local description"@
            },
        }
    }

    fn advance(&mut self, state: &mut AppState) -> (step: OfferStep)
        requires
            old(state).wf(),
            old(self).phase != OfferPhase::Over,
            old(self).phase != OfferPhase::Delivering,
        ensures
            final(state).wf(),
            old(self).advances(*old(state), *final(self), *final(state), step),
    {
        match self.phase {
            OfferPhase::Building => {
                self.video_ssrc = random_ssrc();
                self.phase = OfferPhase::CreatingVideo;
                OfferStep::CreateTrack(track_plan(MediaKind::Video, self.video_ssrc))
            },
            OfferPhase::CreatingVideo => {
                self.phase = OfferPhase::AddingVideo;
                OfferStep::AddTrack(MediaKind::Video)
            },
            OfferPhase::AddingVideo => {
                self.audio_ssrc = random_ssrc();
                self.phase = OfferPhase::CreatingAudio;
                OfferStep::CreateTrack(track_plan(MediaKind::Audio, self.audio_ssrc))
            },
            OfferPhase::CreatingAudio => {
                self.phase = OfferPhase::AddingAudio;
                OfferStep::AddTrack(MediaKind::Audio)
            },
            OfferPhase::AddingAudio => match session_offer(self.sdp.clone()) {
                Ok(description) => {
                    self.phase = OfferPhase::SettingRemote;
                    OfferStep::SetRemote(description)
                },
                Err(fault) => {
                    self.phase = OfferPhase::Over;
                    OfferStep::Refuse(
                        refusal(StatusCode::BadRequest, "invalid offer SDP: ", fault.as_str()),
                    )
                },
            },
            OfferPhase::SettingRemote => {
                self.phase = OfferPhase::Answering;
                OfferStep::CreateAnswer
            },
            OfferPhase::Answering => {
                self.phase = OfferPhase::SettingLocal;
                OfferStep::SetLocal
            },
            _ => {
                state.peer_connections.insert(self.token.clone(), ());
                let candidates: Vec<IceCandidate> = take_waiting(
                    &mut state.pending_client_candidates,
                    &self.token,
                );
                self.phase = OfferPhase::Delivering;
                OfferStep::Deliver(candidates)
            },
        }
    }

    /// Goes on after a step.
    pub fn on_event(&mut self, state: &mut AppState, event: OfferEvent) -> (step: OfferStep)
        requires
            old(state).wf(),
            old(self).expects(event),
        ensures
            final(state).wf(),
            old(self).follows(*old(state), event, *final(self), *final(state), step),
    {
        match event {
            OfferEvent::Done => self.advance(state),
            OfferEvent::Failed(why) => {
                let what: &'static str = self.phase.complaint_text();
                self.phase = OfferPhase::Over;
                OfferStep::Refuse(refusal(StatusCode::InternalServerError, what, why.as_str()))
            },
            OfferEvent::Settled(settled) => {
                self.phase = OfferPhase::Over;
                match settled {
                    Some(sdp) => OfferStep::Answer(
                        AnswerResponse { sdp, kind: "answer".to_owned() },
                    ),
                    None => OfferStep::Refuse(
                        Refusal {
                            status: StatusCode::InternalServerError,
                            text: "no local description".to_owned(),
                        },
                    ),
                }
            },
        }
    }
}

/// Addresses of the viewer that came before the connection all reach it, in
/// order, and none waits then.
pub proof fn waiting_candidates_are_delivered(
    exchange: OfferExchange,
    after: OfferExchange,
    first: AppState,
    second: AppState,
    third: AppState,
    candidate: IceCandidate,
    posted: CandidateStep,
    step: OfferStep,
)
    requires
        exchange.phase == OfferPhase::SettingLocal,
        !first.peer_connections.contents().contains_key(exchange.token@),
        candidate_posted(first, second, exchange.token@, candidate, posted),
        exchange.follows(second, OfferEvent::Done, after, third, step),
    ensures
        step matches OfferStep::Deliver(candidates) && candidates@ == waiting(
            first.pending_client_candidates.contents(),
            exchange.token@,
        ).push(candidate),
        waiting(third.pending_client_candidates.contents(), exchange.token@).len() == 0,
{
}

/// Once the connection stands, an address of the viewer goes straight to it.
pub proof fn later_candidates_go_to_the_connection(
    exchange: OfferExchange,
    after: OfferExchange,
    first: AppState,
    second: AppState,
    third: AppState,
    candidate: IceCandidate,
    posted: CandidateStep,
    step: OfferStep,
)
    requires
        exchange.phase == OfferPhase::SettingLocal,
        exchange.follows(first, OfferEvent::Done, after, second, step),
        candidate_posted(second, third, exchange.token@, candidate, posted),
    ensures
        posted matches CandidateStep::Deliver { token, candidate: c } && token@
            == exchange.token@ && c == candidate,
        third == second,
{
}

/// The step that refuses an offer changes nothing that the server knows, and
/// ends the exchange.
pub proof fn refusing_changes_nothing(
    exchange: OfferExchange,
    before: AppState,
    event: OfferEvent,
    after: OfferExchange,
    state: AppState,
    step: OfferStep,
)
    requires
        exchange.expects(event),
        exchange.follows(before, event, after, state, step),
        step is Refuse,
    ensures
        state == before,
        after.phase == OfferPhase::Over,
{
}

/// An offer is accepted exactly if it says that it is one. What is kept of it
/// is its own: its text and its session, whose addresses of the server start
/// anew; those of other sessions stay, and so does all else. All servers that
/// are known are asked for addresses, in order.
pub proof fn accepted_offers_are_kept(
    before: AppState,
    after: AppState,
    token: Seq<char>,
    req: OfferRequest,
    r: Result<(OfferExchange, OfferStep), Refusal>,
)
    requires
        offer_taken(before, after, token, req, r),
    ensures
        r is Ok <==> req.kind@ == "offer"@,
        r matches Err(refusal) ==> after == before && refusal.status == StatusCode::BadRequest
            && refusal.text@.len() > req.kind@.len() && refusal.text@.subrange(
            refusal.text@.len() - 1 - req.kind@.len(),
            refusal.text@.len() - 1,
        ) == req.kind@,
        r matches Ok(begun) ==> {
            &&& begun.0.token@ == token
            &&& begun.0.sdp@ == req.sdp@
            &&& begun.1 matches OfferStep::BuildPeer { ice_urls, handler, .. }
            &&& handler.session_token@ == token
            &&& if before.stun_urls@.len() == 0 {
                ice_urls is None
            } else {
                ice_urls matches Some(urls) && urls@ == before.stun_urls@
            }
            &&& after.server_candidates.contents().contains_key(token)
            &&& waiting(after.server_candidates.contents(), token).len() == 0
            &&& forall|k: Seq<char>|
                k != token ==> #[trigger] waiting(after.server_candidates.contents(), k) == waiting(
                    before.server_candidates.contents(),
                    k,
                )
            &&& after.pending_client_candidates == before.pending_client_candidates
            &&& after.peer_connections == before.peer_connections
            &&& after.sessions == before.sessions
            &&& after.broadcaster == before.broadcaster
        },
{
    reveal_strlit("expected type 'offer', got '");
    reveal_strlit("'");
    if let Err(refusal) = r {
        assert(refusal.text@.subrange(
            refusal.text@.len() - 1 - req.kind@.len(),
            refusal.text@.len() - 1,
        ) =~= req.kind@);
    }
    if let Ok(begun) = r {
        assert forall|k: Seq<char>| k != token implies #[trigger] waiting(
            after.server_candidates.contents(),
            k,
        ) == waiting(before.server_candidates.contents(), k) by {
            assert(waiting(before.server_candidates.contents(), k) == waiting(
                after.server_candidates.contents(),
                k,
            ));
        }
    }
}

/// An offer is taken from sessions only, and then for the session whose token
/// it shows; it is begun exactly if it says that it is an offer.
pub proof fn offers_are_taken_from_sessions(
    state: &&mut AppState,
    before: AppState,
    after: AppState,
    headers: HeaderMap<HeaderValue>,
    now: Duration,
    req: OfferRequest,
    r: Result<(OfferExchange, OfferStep), Refusal>,
)
    requires
        call_ensures(offer, (*state, &headers, now, req), r),
        before == **state,
        after == *final(*state),
    ensures
        r is Ok <==> has_session(before, shown_token(headers), now) && req.kind@ == "offer"@,
        r matches Ok(begun) ==> shown_token(headers) == Some(begun.0.token@) && begun.0.sdp@
            == req.sdp@ && begun.1 is BuildPeer,
        r matches Err(refusal) ==> after.server_candidates == before.server_candidates
            && refusal.status == (if has_session(before, shown_token(headers), now) {
            StatusCode::BadRequest
        } else {
            StatusCode::Unauthorized
        }),
        keeps_sessions(before, after, now),
        after == (AppState {
            server_candidates: after.server_candidates,
            sessions: after.sessions,
            ..before
        }),
{
    lasting_sessions_are_found(before, shown_token(headers), now);
    if has_session(before, shown_token(headers), now) {
        let token = shown_token(headers)->Some_0;
        let checked = choose|checked: AppState|
            #![trigger sessions_checked(before, checked, true, now)]
            sessions_checked(before, checked, true, now) && offer_taken(
                checked,
                after,
                token,
                req,
                r,
            );
        lasting_sessions_are_kept(before, checked, true, now);
        accepted_offers_are_kept(checked, after, token, req, r);
    } else {
        lasting_sessions_are_kept(before, after, shown_token(headers) is Some, now);
    }
}

/// Every answer to an event that an exchange expects follows from the event.
pub proof fn every_answer_to_an_exchange_follows(
    exchange: &&mut OfferExchange,
    state: &&mut AppState,
    event: OfferEvent,
    step: OfferStep,
)
    requires
        call_ensures(OfferExchange::on_event, (*exchange, *state, event), step),
        (**exchange).expects(event),
    ensures
        old(*exchange).follows(*old(*state), event, *final(*exchange), *final(*state), step),
{
}

/// How far a phase is from the beginning of an exchange.
pub open spec fn steps_done(phase: OfferPhase) -> int {
    match phase {
        OfferPhase::Building => 0,
        OfferPhase::CreatingVideo => 1,
        OfferPhase::AddingVideo => 2,
        OfferPhase::CreatingAudio => 3,
        OfferPhase::AddingAudio => 4,
        OfferPhase::SettingRemote => 5,
        OfferPhase::Answering => 6,
        OfferPhase::SettingLocal => 7,
        OfferPhase::Delivering => 8,
        OfferPhase::Over => 9,
    }
}

/// An exchange goes on by one step at a time, in a fixed order, until it is
/// answered or refused; its session and the text of the offer stay as they are,
/// and so do the numbers of the tracks once these are made.
pub proof fn exchanges_go_on_in_order(
    exchange: OfferExchange,
    before: AppState,
    event: OfferEvent,
    after: OfferExchange,
    state: AppState,
    step: OfferStep,
)
    requires
        exchange.expects(event),
        exchange.follows(before, event, after, state, step),
    ensures
        step is Refuse || step is Answer <==> after.phase == OfferPhase::Over,
        after.phase != OfferPhase::Over ==> steps_done(after.phase) == steps_done(exchange.phase)
            + 1,
        step is Answer ==> exchange.phase == OfferPhase::Delivering,
        after.token == exchange.token,
        after.sdp == exchange.sdp,
        steps_done(exchange.phase) != 0 ==> after.video_ssrc == exchange.video_ssrc,
        steps_done(exchange.phase) != 2 ==> after.audio_ssrc == exchange.audio_ssrc,
{
}

/// What a step hands on is what belongs to the exchange: the tracks carry the
/// numbers that are kept for them, the connection is told the offer as it came,
/// and the viewer is sent the answer as it was settled on.
pub proof fn steps_hand_on_what_belongs_to_the_exchange(
    exchange: OfferExchange,
    before: AppState,
    event: OfferEvent,
    after: OfferExchange,
    state: AppState,
    step: OfferStep,
)
    requires
        exchange.expects(event),
        exchange.follows(before, event, after, state, step),
    ensures
        match step {
            OfferStep::BuildPeer { .. } => false,
            OfferStep::CreateTrack(plan) => plan.ssrc == (if plan.kind == MediaKind::Video {
                after.video_ssrc
            } else {
                after.audio_ssrc
            }) && (plan.kind == MediaKind::Video <==> steps_done(exchange.phase) == 0) && (plan.kind
                == MediaKind::Audio <==> steps_done(exchange.phase) == 2),
            OfferStep::AddTrack(kind) => steps_done(exchange.phase) == (if kind
                == MediaKind::Video {
                1int
            } else {
                3int
            }),
            OfferStep::SetRemote(description) => session_sdp(description) == exchange.sdp@
                && offer_fault(exchange.sdp@) is None && steps_done(exchange.phase) == 4,
            OfferStep::CreateAnswer => steps_done(exchange.phase) == 5,
            OfferStep::SetLocal => steps_done(exchange.phase) == 6,
            OfferStep::Deliver(_) => steps_done(exchange.phase) == 7,
            OfferStep::Answer(answer) => event == OfferEvent::Settled(Some(answer.sdp))
                && answer.kind@ == "answer"@,
            OfferStep::Refuse(refusal) => match event {
                OfferEvent::Done => offer_fault(exchange.sdp@) is Some && refusal.status
                    == StatusCode::BadRequest,
                OfferEvent::Failed(_) => refusal.status == StatusCode::InternalServerError,
                OfferEvent::Settled(s) => s is None && refusal.status
                    == StatusCode::InternalServerError,
            },
        },
        event is Failed ==> step is Refuse,
        event is Settled ==> step is Refuse || step is Answer,
{
}

/// The connection that an exchange keeps is its own session's: it is handed the
/// addresses that wait for that session, and no other session's addresses or
/// connections are touched. No other step changes what the server knows.
pub proof fn exchanges_touch_their_own_session_only(
    exchange: OfferExchange,
    before: AppState,
    event: OfferEvent,
    after: OfferExchange,
    state: AppState,
    step: OfferStep,
    other: Seq<char>,
)
    requires
        exchange.expects(event),
        exchange.follows(before, event, after, state, step),
        other != exchange.token@,
    ensures
        step !is Deliver ==> state == before,
        step matches OfferStep::Deliver(candidates) ==> {
            &&& candidates@ == waiting(
                before.pending_client_candidates.contents(),
                exchange.token@,
            )
            &&& state.peer_connections.contents().contains_key(exchange.token@)
        },
        waiting(state.pending_client_candidates.contents(), other) == waiting(
            before.pending_client_candidates.contents(),
            other,
        ),
        state.peer_connections.contents().contains_key(other)
            == before.peer_connections.contents().contains_key(other),
        state.server_candidates == before.server_candidates,
        state.sessions == before.sessions,
        state.broadcaster == before.broadcaster,
        state.audio_settings == before.audio_settings,
        state.fps == before.fps,
{
}

/// How long a viewer may take to connect, in seconds.
pub const CONNECT_SECONDS: u64 = 30;

/// How a track was agreed on.
#[derive(Debug)]
pub struct Negotiated {
    /// The payload types, where they are known.
    pub payload_types: Option<Vec<u8>>,
    pub ssrcs: Vec<u32>,
}

/// A track that is sent: under which numbers.
#[derive(Clone, Copy, Debug, PartialEq, Eq, Structural)]
pub struct StreamPlan {
    pub ssrc: u32,
    pub payload_type: u8,
}

/// The numbers of a track: the first that were agreed on, or else those that
/// were offered.
pub open spec fn agreed(n: Negotiated, payload_type: u8, ssrc: u32) -> StreamPlan {
    StreamPlan {
        ssrc: if n.ssrcs@.len() > 0 {
            n.ssrcs@[0]
        } else {
            ssrc
        },
        payload_type: match n.payload_types {
            Some(types) => if types@.len() > 0 {
                types@[0]
            } else {
                payload_type
            },
            None => payload_type,
        },
    }
}

/// The numbers of a track: the first that were agreed on, or else those that
/// were offered.
pub fn agreed_stream(n: &Negotiated, payload_type: u8, ssrc: u32) -> (r: StreamPlan)
    ensures
        r == agreed(*n, payload_type, ssrc),
{
    let ssrc: u32 = if n.ssrcs.len() > 0 {
        n.ssrcs[0]
    } else {
        ssrc
    };
    let payload_type: u8 = match &n.payload_types {
        Some(types) => if types.len() > 0 {
            types[0]
        } else {
            payload_type
        },
        None => payload_type,
    };
    StreamPlan { ssrc, payload_type }
}

/// What a stream is started with.
pub struct StreamStart {
    pub fps: u32,
    pub audio_settings: AudioSettings,
}

/// What has to be done next for a viewer.
pub enum ViewerStep {
    /// Wait for the connection, for so many seconds at most.
    Wait { seconds: u64 },
    /// Ask how the tracks were agreed on.
    AskNegotiated,
    /// Send pictures, and sound where it is wanted, until the viewer is gone;
    /// start the stream first where it does not run.
    Forward { video: StreamPlan, audio: Option<StreamPlan>, start: Option<StreamStart> },
    /// Let the connection go.
    Release,
    /// Nothing is left to do.
    GiveUp,
}

/// What happened to a viewer.
pub enum ViewerEvent {
    Connected,
    /// The connection did not come in time, or cannot come any more.
    NotConnected,
    Negotiated { video: Negotiated, audio: Negotiated },
    /// The viewer is gone.
    Ended,
}

/// How far a viewer has come.
#[derive(Clone, Copy, Debug, PartialEq, Eq, Structural)]
pub enum ViewerPhase {
    Waiting,
    Negotiating,
    Watching,
    Gone,
}

/// A viewer whose offer was answered.
pub struct ViewerSession {
    pub token: String,
    pub fps: u32,
    pub video_ssrc: u32,
    pub audio_ssrc: u32,
    pub phase: ViewerPhase,
}

/// What is started for a viewer: the stream, where it does not run.
pub open spec fn starts(start: Option<StreamStart>, fps: u32, state: AppState) -> bool {
    match start {
        Some(s) => !state.broadcaster.running && s.fps == fps && s.audio_settings
            == state.audio_settings,
        None => state.broadcaster.running,
    }
}

impl ViewerSession {
    /// Whether an event can come now.
    pub open spec fn expects(&self, event: ViewerEvent) -> bool {
        match self.phase {
            ViewerPhase::Waiting => event is Connected || event is NotConnected,
            ViewerPhase::Negotiating => event is Negotiated,
            ViewerPhase::Watching => event is Ended,
            ViewerPhase::Gone => false,
        }
    }

    /// What comes after an event.
    pub open spec fn follows(
        &self,
        before: AppState,
        event: ViewerEvent,
        after: ViewerSession,
        state: AppState,
        step: ViewerStep,
    ) -> bool {
        match event {
            ViewerEvent::Connected => {
                &&& state == before
                &&& after == ViewerSession { phase: ViewerPhase::Negotiating, ..*self }
                &&& step == ViewerStep::AskNegotiated
            },
            ViewerEvent::NotConnected => {
                &&& state == before
                &&& after == ViewerSession { phase: ViewerPhase::Gone, ..*self }
                &&& step == ViewerStep::GiveUp
            },
            ViewerEvent::Negotiated { video, audio } => {
                &&& state == AppState {
                    broadcaster: Broadcaster {
                        running: true,
                        subscriber_count: before.broadcaster.subscriber_count.wrapping_add(1),
                        needs_keyframe: true,
                    },
                    ..before
                }
                &&& after == ViewerSession { phase: ViewerPhase::Watching, ..*self }
                &&& step matches ViewerStep::Forward { video: v, audio: a, start }
                &&& v == agreed(video, VIDEO_PAYLOAD_TYPE, self.video_ssrc)
                &&& a == if before.audio_settings.enabled {
                    Some(agreed(audio, AUDIO_PAYLOAD_TYPE, self.audio_ssrc))
                } else {
                    None
                }
                &&& starts(start, self.fps, before)
            },
            ViewerEvent::Ended => {
                &&& after == ViewerSession { phase: ViewerPhase::Gone, ..*self }
                &&& step == ViewerStep::Release
                &&& state.peer_connections.contents() == before.peer_connections.contents().remove(
                    self.token@,
                )
                &&& state.server_candidates.contents()
                    == before.server_candidates.contents().remove(self.token@)
                &&& state.pending_client_candidates.contents()
                    == before.pending_client_candidates.contents().remove(self.token@)
                &&& state == AppState {
                    broadcaster: Broadcaster {
                        subscriber_count: before.broadcaster.subscriber_count.wrapping_sub(1),
                        ..before.broadcaster
                    },
                    peer_connections: state.peer_connections,
                    server_candidates: state.server_candidates,
                    pending_client_candidates: state.pending_client_candidates,
                    ..before
                }
            },
        }
    }

    /// A viewer whose offer was answered has to connect.
    pub fn start(exchange: OfferExchange, state: &AppState) -> (r: (ViewerSession, ViewerStep))
        ensures
            r.0 == (ViewerSession {
                token: exchange.token,
                fps: state.fps,
                video_ssrc: exchange.video_ssrc,
                audio_ssrc: exchange.audio_ssrc,
                phase: ViewerPhase::Waiting,
            }),
            r.1 == (ViewerStep::Wait { seconds: CONNECT_SECONDS }),
    {
        (
            ViewerSession {
                token: exchange.token,
                fps: state.get_fps(),
                video_ssrc: exchange.video_ssrc,
                audio_ssrc: exchange.audio_ssrc,
                phase: ViewerPhase::Waiting,
            },
            ViewerStep::Wait { seconds: CONNECT_SECONDS },
        )
    }

    /// Goes on after an event.
    pub fn on_event(&mut self, state: &mut AppState, event: ViewerEvent) -> (step: ViewerStep)
        requires
            old(state).wf(),
            old(self).expects(event),
        ensures
            final(state).wf(),
            old(self).follows(*old(state), event, *final(self), *final(state), step),
    {
        match event {
            ViewerEvent::Connected => {
                self.phase = ViewerPhase::Negotiating;
                ViewerStep::AskNegotiated
            },
            ViewerEvent::NotConnected => {
                self.phase = ViewerPhase::Gone;
                ViewerStep::GiveUp
            },
            ViewerEvent::Negotiated { video, audio } => {
                let video: StreamPlan = agreed_stream(&video, VIDEO_PAYLOAD_TYPE, self.video_ssrc);
                let audio: Option<StreamPlan> = if state.audio_settings.enabled {
                    Some(agreed_stream(&audio, AUDIO_PAYLOAD_TYPE, self.audio_ssrc))
                } else {
                    None
                };
                state.broadcaster.add_subscriber();
                let start: Option<StreamStart> = if state.broadcaster.ensure_running() {
                    Some(
                        StreamStart {
                            fps: self.fps,
                            audio_settings: state.audio_settings.clone(),
                        },
                    )
                } else {
                    None
                };
                self.phase = ViewerPhase::Watching;
                ViewerStep::Forward { video, audio, start }
            },
            ViewerEvent::Ended => {
                state.broadcaster.remove_subscriber();
                let _ = state.peer_connections.remove(&self.token);
                let _ = state.server_candidates.remove(&self.token);
                let _ = state.pending_client_candidates.remove(&self.token);
                self.phase = ViewerPhase::Gone;
                ViewerStep::Release
            },
        }
    }
}

/// A viewer who is gone has left nothing behind, whatever happened meanwhile:
/// no connection and no addresses; and where nobody else came or went, the
/// stream has as many viewers as before.
pub proof fn viewers_leave_nothing_behind(
    viewer: ViewerSession,
    watching: ViewerSession,
    gone: ViewerSession,
    first: AppState,
    second: AppState,
    meanwhile: AppState,
    last: AppState,
    video: Negotiated,
    audio: Negotiated,
    forward: ViewerStep,
    close: ViewerStep,
)
    requires
        viewer.follows(
            first,
            (ViewerEvent::Negotiated { video, audio }),
            watching,
            second,
            forward,
        ),
        watching.follows(meanwhile, ViewerEvent::Ended, gone, last, close),
    ensures
        !last.peer_connections.contents().contains_key(viewer.token@),
        waiting(last.server_candidates.contents(), viewer.token@).len() == 0,
        waiting(last.pending_client_candidates.contents(), viewer.token@).len() == 0,
        meanwhile.broadcaster.subscriber_count == second.broadcaster.subscriber_count
            ==> last.broadcaster.subscriber_count == first.broadcaster.subscriber_count,
{
    crate::broadcast::coming_and_going_cancels(first.broadcaster.subscriber_count);
}

/// One move of a viewer: what it was, what happened, and what followed.
pub struct ViewerMove {
    pub viewer: ViewerSession,
    pub before: AppState,
    pub event: ViewerEvent,
    pub after: ViewerSession,
    pub state: AppState,
    pub step: ViewerStep,
}

impl ViewerMove {
    /// Whether the viewer makes the move.
    pub open spec fn is_made(self) -> bool {
        &&& self.viewer.expects(self.event)
        &&& self.viewer.follows(self.before, self.event, self.after, self.state, self.step)
    }

    /// Whether the viewer is given a stream to start.
    pub open spec fn starts_stream(self) -> bool {
        self.step matches ViewerStep::Forward { start: Some(_), .. }
    }
}

/// Every answer to an event that a viewer expects is a move.
pub proof fn every_answer_to_a_viewer_is_a_move(viewer: &&mut ViewerSession, state: &&mut AppState, m: ViewerMove)
    requires
        call_ensures(ViewerSession::on_event, (*viewer, *state, m.event), m.step),
        m.viewer == **viewer,
        m.before == **state,
        m.after == *final(*viewer),
        m.state == *final(*state),
        m.viewer.expects(m.event),
    ensures
        m.is_made(),
{
}

/// A viewer whose offer was answered waits for half a minute, with the session
/// and the numbers of the exchange and the rate that is wanted at that time.
pub proof fn answered_viewers_wait(exchange: OfferExchange, state: AppState, r: (ViewerSession, ViewerStep))
    requires
        call_ensures(ViewerSession::start, (exchange, &state), r),
    ensures
        r.0.token@ == exchange.token@,
        r.0.fps == state.fps,
        r.0.video_ssrc == exchange.video_ssrc,
        r.0.audio_ssrc == exchange.audio_ssrc,
        r.0.phase == ViewerPhase::Waiting,
        r.1 == (ViewerStep::Wait { seconds: 30 }),
{
}

/// At most one stream runs: of viewers who are negotiated one after the other
/// with no end of the stream between, only the first is given a stream to
/// start, and that one exactly if none was running before.
pub proof fn at_most_one_stream_runs(moves: Seq<ViewerMove>, i: int)
    requires
        forall|k: int|
            0 <= k < moves.len() ==> (#[trigger] moves[k]).is_made() && moves[k].event
                is Negotiated,
        forall|k: int, l: int|
            0 <= k && l == k + 1 && l < moves.len() ==> (
            #[trigger] moves[l]).before.broadcaster.running == (
            #[trigger] moves[k]).state.broadcaster.running,
        0 <= i < moves.len(),
    ensures
        moves[i].step is Forward,
        moves[i].starts_stream() <==> i == 0 && !moves[0].before.broadcaster.running,
        moves[i].state.broadcaster.running,
{
    assert(moves[i].is_made());
    if i > 0 {
        assert(moves[i - 1].is_made());
        assert(moves[i].before.broadcaster.running == moves[i - 1].state.broadcaster.running);
    }
}

/// A viewer is given a stream to start exactly if it is negotiated while none
/// runs; the stream has the rate that the viewer came with and the settings of
/// the sound that hold now. No viewer ends the stream.
pub proof fn streams_are_started_when_none_runs(m: ViewerMove)
    requires
        m.is_made(),
    ensures
        m.starts_stream() <==> m.event is Negotiated && !m.before.broadcaster.running,
        m.state.broadcaster.running == (m.before.broadcaster.running || m.event is Negotiated),
        m.step matches ViewerStep::Forward { start: Some(s), .. } ==> s.fps == m.viewer.fps
            && s.audio_settings == m.before.audio_settings,
{
}

/// Whether a number is the first of those agreed on, or the offered one where
/// none was.
pub open spec fn is_first_or<T>(number: T, numbers: Seq<T>, offered: T) -> bool {
    if numbers.len() == 0 {
        number == offered
    } else {
        number == numbers.first()
    }
}

/// A viewer is sent pictures, and sound exactly if it is wanted, each under its
/// own numbers: the first that were agreed on for it, or else those that it was
/// offered under.
pub proof fn tracks_go_out_under_agreed_numbers(m: ViewerMove, pictures: Negotiated, sound: Negotiated)
    requires
        m.is_made(),
        m.event == (ViewerEvent::Negotiated { video: pictures, audio: sound }),
    ensures
        m.step matches ViewerStep::Forward { video, audio, .. } && is_first_or(
            video.ssrc,
            pictures.ssrcs@,
            m.viewer.video_ssrc,
        ) && is_first_or(
            video.payload_type,
            match pictures.payload_types {
                Some(types) => types@,
                None => Seq::empty(),
            },
            96,
        ) && match audio {
            None => !m.before.audio_settings.enabled,
            Some(a) => m.before.audio_settings.enabled && is_first_or(
                a.ssrc,
                sound.ssrcs@,
                m.viewer.audio_ssrc,
            ) && is_first_or(
                a.payload_type,
                match sound.payload_types {
                    Some(types) => types@,
                    None => Seq::empty(),
                },
                111,
            ),
        },
{
}

/// Viewers are counted from when they are negotiated until they are gone, and a
/// new one asks for a key frame. A viewer who never connects changes nothing.
pub proof fn viewers_count_while_they_watch(m: ViewerMove)
    requires
        m.is_made(),
        m.before.broadcaster.subscriber_count < u32::MAX,
        m.event is Ended ==> m.before.broadcaster.subscriber_count > 0,
    ensures
        m.state.broadcaster.subscriber_count - m.before.broadcaster.subscriber_count == (if m.event
            is Negotiated {
            1int
        } else if m.event is Ended {
            -1int
        } else {
            0int
        }),
        m.state.broadcaster.needs_keyframe == (m.before.broadcaster.needs_keyframe || m.event
            is Negotiated),
        m.event is Connected || m.event is NotConnected ==> m.state == m.before,
        m.step is GiveUp <==> m.event is NotConnected,
        m.step is Release <==> m.event is Ended,
        m.step is AskNegotiated <==> m.event is Connected,
        m.step is Release || m.step is GiveUp <==> m.after.phase == ViewerPhase::Gone,
{
}

/// A viewer touches no other session's connection or addresses, and no
/// settings; only its own go, and only when it is gone.
pub proof fn viewers_touch_their_own_session_only(m: ViewerMove, other: Seq<char>)
    requires
        m.is_made(),
        other != m.viewer.token@,
    ensures
        m.after.token == m.viewer.token,
        m.after.fps == m.viewer.fps,
        m.after.video_ssrc == m.viewer.video_ssrc,
        m.after.audio_ssrc == m.viewer.audio_ssrc,
        m.state.sessions == m.before.sessions,
        m.state.fps == m.before.fps,
        m.state.capture == m.before.capture,
        m.state.audio_settings == m.before.audio_settings,
        m.state.peer_connections.contents().contains_key(other)
            == m.before.peer_connections.contents().contains_key(other),
        waiting(m.state.server_candidates.contents(), other) == waiting(
            m.before.server_candidates.contents(),
            other,
        ),
        waiting(m.state.pending_client_candidates.contents(), other) == waiting(
            m.before.pending_client_candidates.contents(),
            other,
        ),
        m.event !is Ended ==> m.state.peer_connections == m.before.peer_connections
            && m.state.server_candidates == m.before.server_candidates
            && m.state.pending_client_candidates == m.before.pending_client_candidates,
{
}

/// Every offer that is taken for a session is accepted or refused as its kind
/// says.
pub proof fn taken_offers_go_by_their_kind(
    state: &&mut AppState,
    before: AppState,
    after: AppState,
    token: String,
    req: OfferRequest,
    r: Result<(OfferExchange, OfferStep), Refusal>,
)
    requires
        call_ensures(begin_offer, (*state, token, req), r),
        before == **state,
        after == *final(*state),
    ensures
        r is Ok <==> req.kind@ == "offer"@,
        r is Err ==> after == before,
        r matches Ok(begun) ==> begun.0.token@ == token@ && begun.0.sdp@ == req.sdp@
            && begun.0.phase == OfferPhase::Building,
{
    accepted_offers_are_kept(before, after, token@, req, r);
}

/// The numbers of a track are the first that were agreed on, or else those that
/// it was offered under; what else was agreed on is no matter.
pub proof fn the_first_agreed_numbers_are_used(
    n: Negotiated,
    payload_type: u8,
    ssrc: u32,
    r: StreamPlan,
)
    requires
        call_ensures(agreed_stream, (&n, payload_type, ssrc), r),
    ensures
        is_first_or(r.ssrc, n.ssrcs@, ssrc),
        is_first_or(
            r.payload_type,
            match n.payload_types {
                Some(types) => types@,
                None => Seq::empty(),
            },
            payload_type,
        ),
{
}

/// Pictures and sound go out as H.264 at ninety thousand and as Opus in two
/// channels at forty-eight thousand ticks a second, under different payload
/// types.
pub proof fn codecs_are_told_apart(video: Codec, audio: Codec)
    requires
        call_ensures(codec_of, (MediaKind::Video,), video),
        call_ensures(codec_of, (MediaKind::Audio,), audio),
    ensures
        video.mime_type@ == "video/H264"@ && video.clock_rate == 90000 && video.payload_type == 96,
        audio.mime_type@ == "audio/opus"@ && audio.clock_rate == 48000 && audio.channels == 2
            && audio.payload_type == 111,
        video.payload_type != audio.payload_type,
{
}

/// The tracks of one viewer go out under different names and with the codec of
/// their kind.
pub proof fn tracks_have_the_codec_of_their_kind(
    exchange: OfferExchange,
    before: AppState,
    event: OfferEvent,
    after: OfferExchange,
    state: AppState,
    plan: TrackPlan,
)
    requires
        exchange.expects(event),
        exchange.follows(before, event, after, state, OfferStep::CreateTrack(plan)),
    ensures
        plan.codec.payload_type == (if plan.kind == MediaKind::Video {
            96
        } else {
            111u8
        }),
        plan.codec.mime_type@ == (if plan.kind == MediaKind::Video {
            "video/H264"@
        } else {
            "audio/opus"@
        }),
        plan.label@ == (if plan.kind == MediaKind::Video {
            "ffscreencast"@
        } else {
            "ffscreencast-audio"@
        }),
        plan.track_id@ == plan.label@ + "-track"@,
        plan.stream_id@ == plan.label@ + "-stream"@,
{
    reveal_strlit("ffscreencast");
    reveal_strlit("ffscreencast-audio");
    reveal_strlit("-track");
    reveal_strlit("-stream");
    reveal_strlit("ffscreencast-track");
    reveal_strlit("ffscreencast-stream");
    reveal_strlit("ffscreencast-audio-track");
    reveal_strlit("ffscreencast-audio-stream");
    assert(plan.track_id@ =~= plan.label@ + "-track"@);
    assert(plan.stream_id@ =~= plan.label@ + "-stream"@);
}

/// A step that failed is told with its reason, and so is a description that
/// cannot be read.
pub proof fn refusals_tell_their_reason(
    exchange: OfferExchange,
    before: AppState,
    event: OfferEvent,
    after: OfferExchange,
    state: AppState,
    refusal: Refusal,
)
    requires
        exchange.expects(event),
        exchange.follows(before, event, after, state, OfferStep::Refuse(refusal)),
    ensures
        event matches OfferEvent::Failed(why) ==> ends_with(refusal.text@, why@) && {
            let done = steps_done(exchange.phase);
            &&& done == 0 ==> refusal.text@ == "peer build: "@ + why@
            &&& done == 1 ==> refusal.text@ == "create track: "@ + why@
            &&& done == 2 ==> refusal.text@ == "add_track: "@ + why@
            &&& done == 3 ==> refusal.text@ == "create audio track: "@ + why@
            &&& done == 4 ==> refusal.text@ == "add audio track: "@ + why@
            &&& done == 5 ==> refusal.text@ == "set_remote: "@ + why@
            &&& done == 6 ==> refusal.text@ == "create_answer: "@ + why@
            &&& done == 7 ==> refusal.text@ == "set_local: "@ + why@
        },
        event is Done ==> (offer_fault(exchange.sdp@) matches Some(fault) && ends_with(
            refusal.text@,
            fault,
        )),
{
    if let OfferEvent::Failed(why) = event {
        assert(refusal.text@.skip(refusal.text@.len() - why@.len()) =~= why@);
    }
    if event is Done {
        let fault = offer_fault(exchange.sdp@)->Some_0;
        assert(refusal.text@.skip(refusal.text@.len() - fault.len()) =~= fault);
    }
}

} // verus!
