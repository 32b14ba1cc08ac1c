use std::time::Duration;

use axum::http::{HeaderMap, HeaderValue};
use ffscreencast::audio::AudioSettings;
use ffscreencast::auth::{
    client_ip, constant_time_eq, extract_client_ip, first_address, same_password, token_of, uuid_of,
    uuid_simple, ClientIp, StatusCode, LOCALHOST,
};
use ffscreencast::capture::{Capture, CaptureError, GrabRequest, Target};
use ffscreencast::offer::{
    agreed_stream, codec_of, media_engine, offer, MediaKind, Negotiated, OfferEvent, OfferExchange,
    OfferRequest, OfferStep, StreamPlan, ViewerEvent, ViewerSession, ViewerStep,
};
use ffscreencast::signaling::{
    build_router, get_candidates, get_targets, index, post_auth, post_candidate, post_config,
    post_keyframe, stun_urls, validate_bearer, validate_token, AppState, AuthRequest,
    CandidateRequest, CandidateStep, ConfigRequest, ConnHandler, ConnectionSignal, ConnectionState,
    Endpoint, GatheringState, IceCandidate, Method,
};
use ffscreencast::stats::StreamStats;
use rtc::peer_connection::RTCPeerConnectionBuilder;
use rtc::rtp_transceiver::rtp_sender::RtpCodecKind;

const HOME: ClientIp = ClientIp::V4(LOCALHOST);

fn secs(n: u64) -> Duration {
    Duration::from_secs(n)
}

fn server() -> AppState {
    AppState::new(
        Capture::new(Target::Combined),
        stun_urls(),
        60,
        StreamStats::new(),
        "secret".to_string(),
        AudioSettings::default(),
    )
}

fn login(state: &mut AppState, password: &str, at: Duration) -> Result<String, StatusCode> {
    post_auth(state, HOME, AuthRequest { password: password.to_string() }, at)
}

fn headers(token: &str) -> HeaderMap<HeaderValue> {
    let mut h = HeaderMap::new();
    let value = HeaderValue::from_str(&format!("Bearer {token}")).unwrap();
    h.insert("authorization", value);
    h
}

fn candidate(text: &str) -> IceCandidate {
    IceCandidate {
        candidate: text.to_string(),
        sdp_mid: None,
        sdp_mline_index: Some(0),
        username_fragment: None,
        url: None,
    }
}

fn texts(list: &Vec<IceCandidate>) -> Vec<&str> {
    list.iter().map(|c| c.candidate.as_str()).collect()
}

#[test]
fn passwords_are_compared_as_a_whole() {
    assert!(constant_time_eq(b"abc", b"abc"));
    assert!(!constant_time_eq(b"abc", b"abd"));
    assert!(!constant_time_eq(b"abc", b"ab"));
    assert!(constant_time_eq(b"", b""));
    assert!(same_password("\u{e9}", "\u{e9}"));
    assert!(!same_password("\u{e9}", "e"));
}

#[test]
fn identifiers_are_written_in_groups() {
    let bytes = [0, 1, 2, 3, 4, 5, 6, 7, 8, 9, 10, 11, 12, 13, 14, 255];
    assert_eq!(uuid_of(&bytes), "00010203-0405-0607-0809-0a0b0c0d0eff");
    let a = uuid_simple();
    let b = uuid_simple();
    assert_eq!(a.len(), 36);
    assert_ne!(a, b);
}

#[test]
fn forwarded_addresses_are_read() {
    assert_eq!(first_address(" 10.0.0.1\t, 10.0.0.2"), "10.0.0.1");
    assert_eq!(first_address(""), "");
    let mut h = HeaderMap::new();
    assert_eq!(extract_client_ip(&h), None);
    h.append("x-forwarded-for", HeaderValue::from_static(" 192.168.0.9 , 10.0.0.2"));
    h.append("x-forwarded-for", HeaderValue::from_static("1.1.1.1"));
    assert_eq!(extract_client_ip(&h), Some("192.168.0.9".to_string()));
    let mut odd = HeaderMap::new();
    odd.insert("x-forwarded-for", HeaderValue::from_bytes(&[0xFF, 0x41]).unwrap());
    assert_eq!(extract_client_ip(&odd), None);
    assert_eq!(client_ip(None), HOME);
    assert_eq!(client_ip(Some(ClientIp::V6(1))), ClientIp::V6(1));
    assert_eq!(LOCALHOST, 127 * 0x100_0000 + 1);
}

#[test]
fn tokens_stand_behind_the_word_bearer() {
    assert_eq!(token_of(&headers("abc")), Some("abc".to_string()));
    let mut h = HeaderMap::new();
    h.insert("authorization", HeaderValue::from_static("Basic abc"));
    assert_eq!(token_of(&h), None);
    assert_eq!(token_of(&HeaderMap::new()), None);
}

#[test]
fn logins_begin_sessions() {
    let mut state = server();
    let token = login(&mut state, "secret", secs(5)).unwrap();
    assert_eq!(validate_token(&mut state, &headers(&token), secs(6)), Ok(token));
    assert_eq!(
        validate_token(&mut state, &headers("other"), secs(6)),
        Err(StatusCode::Unauthorized)
    );
    assert_eq!(validate_bearer(&mut state, None, secs(6)), Err(StatusCode::Unauthorized));
    assert_eq!(StatusCode::Unauthorized.code(), 401);
}

#[test]
fn sessions_last_one_day() {
    let mut state = server();
    let old = login(&mut state, "secret", secs(0)).unwrap();
    let young = login(&mut state, "secret", secs(100)).unwrap();
    let just = secs(86_400) - Duration::from_nanos(1);
    assert_eq!(validate_token(&mut state, &headers(&old), just), Ok(old.clone()));
    assert_eq!(
        validate_token(&mut state, &headers(&old), secs(86_400)),
        Err(StatusCode::Unauthorized)
    );
    assert_eq!(validate_token(&mut state, &headers(&young), secs(86_400)), Ok(young));
    assert_eq!(state.sessions.len(), 1);
}

#[test]
fn the_tenth_wrong_password_ends_the_server() {
    let mut state = server();
    for _ in 0..9 {
        assert_eq!(login(&mut state, "wrong", secs(0)), Err(StatusCode::Forbidden));
    }
    assert!(!state.shutdown);
    assert_eq!(state.failures(HOME), 9);
    assert_eq!(login(&mut state, "wrong", secs(0)), Err(StatusCode::TooManyRequests));
    assert!(state.shutdown);
    assert_eq!(StatusCode::Forbidden.code(), 403);
    assert_eq!(StatusCode::TooManyRequests.code(), 429);
}

#[test]
fn a_right_password_forgets_wrong_ones() {
    let mut state = server();
    let other = ClientIp::V4(7);
    let wrong = AuthRequest { password: "x".to_string() };
    assert_eq!(post_auth(&mut state, other, wrong, secs(0)), Err(StatusCode::Forbidden));
    for _ in 0..9 {
        assert!(login(&mut state, "wrong", secs(0)).is_err());
    }
    assert!(login(&mut state, "secret", secs(0)).is_ok());
    assert_eq!(state.failures(HOME), 0);
    assert_eq!(state.failures(other), 1);
    assert_eq!(login(&mut state, "wrong", secs(0)), Err(StatusCode::Forbidden));
    state.auth_failures.insert(HOME, u32::MAX);
    assert!(login(&mut state, "secret", secs(0)).is_ok());
    assert_eq!(state.failures(HOME), 0);
}

#[test]
fn the_page_is_not_kept() {
    let page = index("<html>".to_string());
    assert_eq!(page.content_type, "text/html; charset=utf-8");
    assert_eq!(page.cache_control, "no-store");
    assert_eq!(page.body, "<html>");
}

#[test]
fn targets_are_listed_for_sessions() {
    let mut state = server();
    assert_eq!(
        get_targets(&mut state, &HeaderMap::new(), secs(0)).err(),
        Some(StatusCode::Unauthorized)
    );
    let token = login(&mut state, "secret", secs(0)).unwrap();
    let query = get_targets(&mut state, &headers(&token), secs(0)).ok().unwrap();
    assert!(query.answer(Ok(vec![]), Ok(vec![])).is_ok());
    let query = get_targets(&mut state, &headers(&token), secs(0)).ok().unwrap();
    assert_eq!(
        query.answer(Ok(vec![]), Err(CaptureError::Unavailable)).err(),
        Some(StatusCode::InternalServerError)
    );
    assert_eq!(StatusCode::InternalServerError.code(), 500);
}

fn config(target_type: &str) -> ConfigRequest {
    ConfigRequest {
        target_type: target_type.to_string(),
        target_index: None,
        target_title: None,
        fps: None,
    }
}

#[test]
fn sessions_choose_what_is_captured() {
    let mut state = server();
    let token = login(&mut state, "secret", secs(0)).unwrap();
    let h = headers(&token);
    let r = post_config(&mut state, &h, secs(0), config("monitor"));
    assert!(matches!(r, Ok(GrabRequest::SetTarget(Target::Monitor(0)))));
    let mut wish = config("monitor");
    wish.target_index = Some(2);
    wish.fps = Some(500);
    assert!(post_config(&mut state, &h, secs(0), wish).is_ok());
    assert!(matches!(state.capture.target(), Target::Monitor(2)));
    assert_eq!(state.get_fps(), 60);
    let mut wish = config("window");
    wish.target_title = Some("Editor".to_string());
    wish.fps = Some(0);
    assert!(post_config(&mut state, &h, secs(0), wish).is_ok());
    assert!(matches!(state.capture.target(), Target::Window(t) if t == "Editor"));
    assert_eq!(state.get_fps(), 1);
    assert_eq!(
        post_config(&mut state, &h, secs(0), config("window")).err(),
        Some(StatusCode::BadRequest)
    );
    assert_eq!(
        post_config(&mut state, &h, secs(0), config("screen")).err(),
        Some(StatusCode::BadRequest)
    );
    assert!(post_config(&mut state, &h, secs(0), config("combined")).is_ok());
    assert!(matches!(state.capture.target(), Target::Combined));
    assert_eq!(
        post_config(&mut state, &headers("x"), secs(0), config("combined")).err(),
        Some(StatusCode::Unauthorized)
    );
    state.set_fps(24);
    assert_eq!(state.get_fps(), 24);
    assert_eq!(StatusCode::BadRequest.code(), 400);
}

#[test]
fn sessions_ask_for_key_frames() {
    let mut state = server();
    assert!(post_keyframe(&mut state, &HeaderMap::new(), secs(0)).is_err());
    assert!(!state.broadcaster.needs_keyframe);
    let token = login(&mut state, "secret", secs(0)).unwrap();
    assert!(post_keyframe(&mut state, &headers(&token), secs(0)).is_ok());
    assert!(state.broadcaster.needs_keyframe);
}

#[test]
fn routes_lead_to_their_endpoints() {
    let routes: Vec<(&str, Method, Endpoint)> =
        build_router().iter().map(|r| (r.path, r.method, r.endpoint)).collect();
    assert_eq!(
        routes,
        vec![
            ("/", Method::Get, Endpoint::Index),
            ("/api/auth", Method::Post, Endpoint::Auth),
            ("/offer", Method::Post, Endpoint::Offer),
            ("/api/targets", Method::Get, Endpoint::Targets),
            ("/api/config", Method::Post, Endpoint::Config),
            ("/api/keyframe", Method::Post, Endpoint::Keyframe),
            ("/api/candidate", Method::Post, Endpoint::Candidate),
            ("/api/candidates", Method::Get, Endpoint::Candidates),
        ]
    );
}

const SDP: &str = "v=0\r\no=- 123 2 IN IP4 127.0.0.1\r\ns=-\r\nt=0 0\r\n\
                   m=video 9 UDP/TLS/RTP/SAVPF 96\r\na=recvonly\r\n";

fn begin(state: &mut AppState, token: &str, sdp: &str) -> OfferExchange {
    let req = OfferRequest { sdp: sdp.to_string(), kind: "offer".to_string() };
    let (exchange, step) = offer(state, &headers(token), secs(0), req).ok().unwrap();
    match step {
        OfferStep::BuildPeer { ice_urls, handler, .. } => {
            assert_eq!(ice_urls, Some(vec!["stun:stun.l.google.com:19302".to_string()]));
            assert_eq!(handler.session_token, token);
        }
        _ => panic!(),
    }
    exchange
}

fn done(exchange: &mut OfferExchange, state: &mut AppState) -> OfferStep {
    exchange.on_event(state, OfferEvent::Done)
}

#[test]
fn offers_are_answered() {
    let mut state = server();
    let token = login(&mut state, "secret", secs(0)).unwrap();
    let h = headers(&token);
    for text in ["one", "two"] {
        let req = CandidateRequest { candidate: candidate(text) };
        let step = post_candidate(&mut state, &h, secs(0), req);
        assert!(matches!(step, Ok(CandidateStep::Queued)));
    }
    let mut exchange = begin(&mut state, &token, SDP);
    match done(&mut exchange, &mut state) {
        OfferStep::CreateTrack(plan) => {
            assert_eq!(plan.kind, MediaKind::Video);
            assert_eq!(plan.stream_id, "ffscreencast-stream");
            assert_eq!(plan.codec.mime_type, "video/H264");
            assert_eq!(plan.ssrc, exchange.video_ssrc);
        }
        _ => panic!(),
    }
    assert!(matches!(done(&mut exchange, &mut state), OfferStep::AddTrack(MediaKind::Video)));
    match done(&mut exchange, &mut state) {
        OfferStep::CreateTrack(plan) => {
            assert_eq!(plan.label, "ffscreencast-audio");
            assert_eq!((plan.codec.clock_rate, plan.codec.channels), (48000, 2));
        }
        _ => panic!(),
    }
    assert!(matches!(done(&mut exchange, &mut state), OfferStep::AddTrack(MediaKind::Audio)));
    match done(&mut exchange, &mut state) {
        OfferStep::SetRemote(description) => assert_eq!(description.sdp, SDP),
        _ => panic!(),
    }
    assert!(matches!(done(&mut exchange, &mut state), OfferStep::CreateAnswer));
    assert!(matches!(done(&mut exchange, &mut state), OfferStep::SetLocal));
    match done(&mut exchange, &mut state) {
        OfferStep::Deliver(list) => assert_eq!(texts(&list), vec!["one", "two"]),
        _ => panic!(),
    }
    assert_eq!(state.pending_client_candidates.len(), 0);
    let req = CandidateRequest { candidate: candidate("three") };
    match post_candidate(&mut state, &h, secs(0), req) {
        Ok(CandidateStep::Deliver { token: t, candidate: c }) => {
            assert_eq!((t, c.candidate.as_str()), (token.clone(), "three"));
        }
        _ => panic!(),
    }
    match exchange.on_event(&mut state, OfferEvent::Settled(Some("answer sdp".to_string()))) {
        OfferStep::Answer(answer) => {
            assert_eq!((answer.sdp.as_str(), answer.kind.as_str()), ("answer sdp", "answer"));
        }
        _ => panic!(),
    }
}

#[test]
fn bad_offers_are_refused() {
    let mut state = server();
    let req = |kind: &str| OfferRequest { sdp: SDP.to_string(), kind: kind.to_string() };
    let r = offer(&mut state, &HeaderMap::new(), secs(0), req("offer")).err().unwrap();
    assert_eq!((r.status, r.text.as_str()), (StatusCode::Unauthorized, "unauthorized"));
    let token = login(&mut state, "secret", secs(0)).unwrap();
    let r = offer(&mut state, &headers(&token), secs(0), req("answer")).err().unwrap();
    assert_eq!(
        (r.status, r.text.as_str()),
        (StatusCode::BadRequest, "expected type 'offer', got 'answer'")
    );
    let mut exchange = begin(&mut state, &token, "nonsense");
    for _ in 0..4 {
        done(&mut exchange, &mut state);
    }
    match done(&mut exchange, &mut state) {
        OfferStep::Refuse(r) => {
            assert_eq!(r.status, StatusCode::BadRequest);
            assert!(r.text.starts_with("invalid offer SDP: "));
            assert!(r.text.len() > "invalid offer SDP: ".len());
        }
        _ => panic!(),
    }
}

#[test]
fn failed_steps_refuse_the_offer() {
    let complaints = [
        "peer build: x",
        "create track: x",
        "add_track: x",
        "create audio track: x",
        "add audio track: x",
        "set_remote: x",
        "create_answer: x",
        "set_local: x",
    ];
    for (n, complaint) in complaints.iter().enumerate() {
        let mut state = server();
        let token = login(&mut state, "secret", secs(0)).unwrap();
        let mut exchange = begin(&mut state, &token, SDP);
        for _ in 0..n {
            done(&mut exchange, &mut state);
        }
        match exchange.on_event(&mut state, OfferEvent::Failed("x".to_string())) {
            OfferStep::Refuse(r) => {
                assert_eq!((r.status, r.text.as_str()), (StatusCode::InternalServerError, *complaint));
            }
            _ => panic!(),
        }
        assert_eq!(state.peer_connections.len(), 0);
    }
    let mut state = server();
    let token = login(&mut state, "secret", secs(0)).unwrap();
    let mut exchange = begin(&mut state, &token, SDP);
    for _ in 0..8 {
        done(&mut exchange, &mut state);
    }
    match exchange.on_event(&mut state, OfferEvent::Settled(None)) {
        OfferStep::Refuse(r) => assert_eq!(r.text, "no local description"),
        _ => panic!(),
    }
}

#[test]
fn the_engine_knows_the_codecs() {
    let (engine, registry) = media_engine().ok().unwrap();
    let mut peer = RTCPeerConnectionBuilder::new()
        .with_media_engine(engine)
        .with_interceptor_registry(registry)
        .build(std::time::Instant::now())
        .ok()
        .unwrap();
    peer.add_transceiver_from_kind(RtpCodecKind::Video, None).ok().unwrap();
    peer.add_transceiver_from_kind(RtpCodecKind::Audio, None).ok().unwrap();
    let sdp = peer.create_offer(None).ok().unwrap().sdp;
    assert!(sdp.contains("a=rtpmap:96 H264/90000"));
    assert!(sdp.contains("profile-level-id=640033"));
    assert!(sdp.contains("a=rtpmap:111 opus/48000/2"));
    assert_eq!(codec_of(MediaKind::Audio).payload_type, 111);
}

#[test]
fn addresses_of_the_server_are_given_once() {
    let mut state = server();
    let token = login(&mut state, "secret", secs(0)).unwrap();
    let h = headers(&token);
    let handler = ConnHandler { session_token: token.clone() };
    handler.on_ice_candidate(&mut state, Some(candidate("early")));
    begin(&mut state, &token, SDP);
    handler.on_ice_candidate(&mut state, Some(candidate("a")));
    handler.on_ice_candidate(&mut state, Some(candidate("")));
    handler.on_ice_candidate(&mut state, None);
    handler.on_ice_candidate(&mut state, Some(candidate("b")));
    let given = get_candidates(&mut state, &h, secs(0)).ok().unwrap();
    assert_eq!(texts(&given.candidates), vec!["a", "b"]);
    handler.on_ice_candidate(&mut state, Some(candidate("c")));
    let again = get_candidates(&mut state, &h, secs(0)).ok().unwrap();
    assert!(again.candidates.is_empty());
    assert!(get_candidates(&mut state, &headers("x"), secs(0)).is_err());
}

#[test]
fn connections_are_watched() {
    let handler = ConnHandler { session_token: String::new() };
    assert!(handler.on_ice_gathering_state_change(GatheringState::Complete));
    assert!(!handler.on_ice_gathering_state_change(GatheringState::Gathering));
    assert_eq!(
        handler.on_connection_state_change(ConnectionState::Connected),
        Some(ConnectionSignal::Connected)
    );
    for state in [ConnectionState::Failed, ConnectionState::Disconnected, ConnectionState::Closed] {
        assert_eq!(
            handler.on_connection_state_change(state),
            Some(ConnectionSignal::Disconnected)
        );
    }
    assert_eq!(handler.on_connection_state_change(ConnectionState::New), None);
    assert_eq!(handler.on_connection_state_change(ConnectionState::Connecting), None);
}

fn negotiated(types: Option<Vec<u8>>, ssrcs: Vec<u32>) -> Negotiated {
    Negotiated { payload_types: types, ssrcs }
}

#[test]
fn agreed_numbers_are_used() {
    assert_eq!(
        agreed_stream(&negotiated(Some(vec![102, 96]), vec![5, 6]), 96, 9),
        StreamPlan { ssrc: 5, payload_type: 102 }
    );
    assert_eq!(
        agreed_stream(&negotiated(Some(vec![]), vec![]), 96, 9),
        StreamPlan { ssrc: 9, payload_type: 96 }
    );
    assert_eq!(
        agreed_stream(&negotiated(None, vec![]), 111, 9),
        StreamPlan { ssrc: 9, payload_type: 111 }
    );
}

#[test]
fn viewers_come_and_go() {
    let mut state = server();
    let token = login(&mut state, "secret", secs(0)).unwrap();
    let mut exchange = begin(&mut state, &token, SDP);
    for _ in 0..8 {
        done(&mut exchange, &mut state);
    }
    exchange.on_event(&mut state, OfferEvent::Settled(Some(String::new())));
    let audio_ssrc = exchange.audio_ssrc;
    state.set_fps(30);
    let (mut viewer, step) = ViewerSession::start(exchange, &state);
    assert!(matches!(step, ViewerStep::Wait { seconds: 30 }));
    state.set_fps(10);
    let step = viewer.on_event(&mut state, ViewerEvent::Connected);
    assert!(matches!(step, ViewerStep::AskNegotiated));
    let event = ViewerEvent::Negotiated {
        video: negotiated(Some(vec![100]), vec![1]),
        audio: negotiated(None, vec![]),
    };
    match viewer.on_event(&mut state, event) {
        ViewerStep::Forward { video, audio, start } => {
            assert_eq!(video, StreamPlan { ssrc: 1, payload_type: 100 });
            assert_eq!(audio, Some(StreamPlan { ssrc: audio_ssrc, payload_type: 111 }));
            assert_eq!(start.unwrap().fps, 30);
        }
        _ => panic!(),
    }
    assert_eq!(state.broadcaster.subscriber_count, 1);
    assert_eq!(state.peer_connections.len(), 1);
    assert!(matches!(viewer.on_event(&mut state, ViewerEvent::Ended), ViewerStep::Release));
    assert_eq!(state.broadcaster.subscriber_count, 0);
    assert_eq!(state.peer_connections.len(), 0);
    assert_eq!(state.server_candidates.len(), 0);
}

#[test]
fn viewers_that_do_not_connect_are_given_up() {
    let mut state = server();
    let token = login(&mut state, "secret", secs(0)).unwrap();
    let exchange = begin(&mut state, &token, SDP);
    let (mut viewer, _) = ViewerSession::start(exchange, &state);
    let step = viewer.on_event(&mut state, ViewerEvent::NotConnected);
    assert!(matches!(step, ViewerStep::GiveUp));
    assert_eq!(state.broadcaster.subscriber_count, 0);
}
