//! What the server answers: logins, sessions, what is captured, and how
//! viewers reach the stream.

use std::time::Duration;

use axum::http::{HeaderMap, HeaderValue};
use vstd::prelude::*;
use vstd::string::*;

use crate::audio::AudioSettings;
use crate::auth::{
    bearer, bearer_token, same_password, shown_token, token_of, tokens_follow_the_word_bearer,
    uuid_simple, uuid_text, ClientIp, StatusCode,
};
use crate::broadcast::Broadcaster;
use crate::capture::{Capture, CaptureError, GrabRequest, MonitorInfo, Target, WindowInfo};
use crate::stats::StreamStats;
use crate::table::Table;
use crate::text::same_text;
use crate::trusted::nanos;

verus! {

/// How many wrong passwords from one address end the server.
pub const BRUTE_FORCE_THRESHOLD: u32 = 10;

/// How long a session lasts, in seconds.
pub const SESSION_SECONDS: u64 = 86400;

/// An address under which one end of a connection may be reached.
#[derive(Debug)]
pub struct IceCandidate {
    pub candidate: String,
    pub sdp_mid: Option<String>,
    pub sdp_mline_index: Option<u16>,
    pub username_fragment: Option<String>,
    pub url: Option<String>,
}

/// What the server knows.
pub struct AppState {
    pub capture: Capture,
    pub stun_urls: Vec<String>,
    pub fps: u32,
    pub stats: StreamStats,
    pub password: String,
    /// When each session began, by token.
    pub sessions: Table<String, Duration>,
    /// How many wrong passwords came from each address since a right one.
    pub auth_failures: Table<ClientIp, u32>,
    /// Whether the server has to end.
    pub shutdown: bool,
    pub audio_settings: AudioSettings,
    /// The sessions that have a connection.
    pub peer_connections: Table<String, ()>,
    /// The server's addresses that a session has not fetched yet.
    pub server_candidates: Table<String, Vec<IceCandidate>>,
    /// The viewer's addresses that came before the connection.
    pub pending_client_candidates: Table<String, Vec<IceCandidate>>,
    pub broadcaster: Broadcaster,
}

impl AppState {
    /// Whether the tables are in order.
    pub open spec fn wf(&self) -> bool {
        &&& self.sessions.wf()
        &&& self.auth_failures.wf()
        &&& self.peer_connections.wf()
        &&& self.server_candidates.wf()
        &&& self.pending_client_candidates.wf()
    }

    /// A server that nobody has reached yet.
    pub fn new(
        capture: Capture,
        stun_urls: Vec<String>,
        fps: u32,
        stats: StreamStats,
        password: String,
        audio_settings: AudioSettings,
    ) -> (r: Self)
        ensures
            r.wf(),
            r.capture == capture,
            r.stun_urls == stun_urls,
            r.fps == fps,
            r.stats == stats,
            r.password == password,
            r.audio_settings == audio_settings,
            !r.shutdown,
            r.sessions.contents() == Map::<Seq<char>, Duration>::empty(),
            r.auth_failures.contents() == Map::<ClientIp, u32>::empty(),
            r.peer_connections.contents() == Map::<Seq<char>, ()>::empty(),
            r.server_candidates.contents() == Map::<Seq<char>, Vec<IceCandidate>>::empty(),
            r.pending_client_candidates.contents() == Map::<Seq<char>, Vec<IceCandidate>>::empty(),
            r.broadcaster == (Broadcaster {
                running: false,
                subscriber_count: 0,
                needs_keyframe: false,
            }),
    {
        AppState {
            capture,
            stun_urls,
            fps,
            stats,
            password,
            sessions: Table::new(),
            auth_failures: Table::new(),
            shutdown: false,
            audio_settings,
            peer_connections: Table::new(),
            server_candidates: Table::new(),
            pending_client_candidates: Table::new(),
            broadcaster: Broadcaster::new(),
        }
    }

    /// How many frames a second are wanted.
    pub fn get_fps(&self) -> (r: u32)
        ensures
            r == self.fps,
    {
        self.fps
    }

    /// Sets how many frames a second are wanted.
    pub fn set_fps(&mut self, fps: u32)
        ensures
            *final(self) == (AppState { fps, ..*old(self) }),
    {
        self.fps = fps;
    }

    /// How many wrong passwords came from an address since a right one.
    pub open spec fn failures_of(&self, ip: ClientIp) -> u32 {
        if self.auth_failures.contents().contains_key(ip) {
            self.auth_failures.contents()[ip]
        } else {
            0
        }
    }

    /// How many wrong passwords came from an address since a right one.
    pub fn failures(&self, ip: ClientIp) -> (r: u32)
        requires
            self.wf(),
        ensures
            r == self.failures_of(ip),
    {
        match self.auth_failures.get(&ip) {
            Some(n) => *n,
            None => 0,
        }
    }
}

/// A login.
#[derive(Debug)]
pub struct AuthRequest {
    pub password: String,
}

/// What a wrong password from `ip` does: it is counted, and the one that
/// reaches the threshold ends the server.
pub open spec fn login_refused(
    before: AppState,
    after: AppState,
    ip: ClientIp,
    status: StatusCode,
) -> bool {
    let count = (before.failures_of(ip) + 1) as u32;
    let over = count >= BRUTE_FORCE_THRESHOLD;
    &&& after.wf()
    &&& after.auth_failures.contents() == before.auth_failures.contents().insert(ip, count)
    &&& after == AppState {
        auth_failures: after.auth_failures,
        shutdown: before.shutdown || over,
        ..before
    }
    &&& status == if over {
        StatusCode::TooManyRequests
    } else {
        StatusCode::Forbidden
    }
}

/// What a right password from `ip` does: the wrong ones are forgotten and a
/// session begins.
pub open spec fn login_granted(
    before: AppState,
    after: AppState,
    ip: ClientIp,
    token: Seq<char>,
    now: Duration,
) -> bool {
    &&& after.wf()
    &&& after.auth_failures.contents() == before.auth_failures.contents().remove(ip)
    &&& after.sessions.contents() == before.sessions.contents().insert(token, now)
    &&& after == AppState {
        auth_failures: after.auth_failures,
        sessions: after.sessions,
        ..before
    }
}

fn refuse_login(state: &mut AppState, ip: ClientIp) -> (status: StatusCode)
    requires
        old(state).wf(),
        old(state).failures_of(ip) < u32::MAX,
    ensures
        login_refused(*old(state), *final(state), ip, status),
{
    let current: u32 = state.failures(ip) + 1;
    state.auth_failures.insert(ip, current);
    if current >= BRUTE_FORCE_THRESHOLD {
        state.shutdown = true;
        return StatusCode::TooManyRequests;
    }
    StatusCode::Forbidden
}

/// Begins a session under a token.
pub fn grant_login(state: &mut AppState, ip: ClientIp, token: &String, now: Duration)
    requires
        old(state).wf(),
    ensures
        login_granted(*old(state), *final(state), ip, token@, now),
{
    let _ = state.auth_failures.remove(&ip);
    state.sessions.insert(token.clone(), now);
}

/// Answers a login with the token of a new session, or refuses it.
pub fn post_auth(state: &mut AppState, ip: ClientIp, req: AuthRequest, now: Duration) -> (r: Result<
    String,
    StatusCode,
>)
    requires
        old(state).wf(),
        req.password@ != old(state).password@ ==> old(state).failures_of(ip) < u32::MAX,
    ensures
        final(state).wf(),
        r is Ok <==> req.password@ == old(state).password@,
        match r {
            Ok(token) => login_granted(*old(state), *final(state), ip, token@, now) && exists|
                bytes: Seq<u8>,
            |
                bytes.len() == 16 && token@ == #[trigger] uuid_text(bytes, 16),
            Err(status) => login_refused(*old(state), *final(state), ip, status),
        },
{
    if !same_password(req.password.as_str(), state.password.as_str()) {
        return Err(refuse_login(state, ip));
    }
    let token: String = uuid_simple();
    grant_login(state, ip, &token, now);
    Ok(token)
}

/// Whether a session that began at `created` still lasts.
pub open spec fn is_live(created: Duration, now: Duration) -> bool {
    let age = if nanos(now) >= nanos(created) {
        nanos(now) - nanos(created)
    } else {
        0
    };
    age / 1_000_000_000 < SESSION_SECONDS
}

/// The sessions that still last.
pub open spec fn live_sessions(sessions: Map<Seq<char>, Duration>, now: Duration) -> Map<
    Seq<char>,
    Duration,
> {
    Map::new(
        |k: Seq<char>| sessions.contains_key(k) && is_live(sessions[k], now),
        |k: Seq<char>| sessions[k],
    )
}

fn expire_sessions(sessions: &mut Table<String, Duration>, now: Duration)
    requires
        old(sessions).wf(),
    ensures
        final(sessions).wf(),
        final(sessions).contents() == live_sessions(old(sessions).contents(), now),
{
    let ghost before = sessions.contents();
    let mut i: usize = 0;
    while i < sessions.len()
        invariant
            sessions.wf(),
            i <= sessions.size(),
            forall|k: Seq<char>| #[trigger]
                sessions.contents().contains_key(k) ==> before.contains_key(k)
                    && sessions.contents()[k] == before[k],
            forall|k: Seq<char>| #[trigger]
                before.contains_key(k) && is_live(before[k], now)
                    ==> sessions.contents().contains_key(k),
            forall|j: int|
                0 <= j < i ==> is_live(sessions.contents()[#[trigger] sessions.key_at(j)], now),
        decreases sessions.size() - i,
    {
        let created: Duration = *sessions.value_at(i);
        if now.saturating_sub(created).as_secs() < SESSION_SECONDS {
            i = i + 1;
        } else {
            let ghost whole = *sessions;
            let ghost gone = sessions.key_at(i as int);
            sessions.remove_at(i);
            assert(!is_live(before[gone], now));
            assert forall|j: int| 0 <= j < i implies is_live(
                sessions.contents()[#[trigger] sessions.key_at(j)],
                now,
            ) by {
                assert(is_live(whole.contents()[whole.key_at(j)], now));
            }
        }
    }
    proof {
        let cur = sessions.contents();
        assert forall|k: Seq<char>| cur.contains_key(k) implies is_live(cur[k], now) by {
            let j = sessions.every_key_has_a_place(k);
            assert(sessions.key_at(j) == k);
        }
        assert(cur =~= live_sessions(before, now));
    }
}

/// What looking at a token does to the sessions: where a token is shown, those
/// that are over go.
pub open spec fn sessions_checked(before: AppState, after: AppState, shown: bool, now: Duration) -> bool {
    &&& after.wf()
    &&& if shown {
        after.sessions.contents() == live_sessions(before.sessions.contents(), now) && after
            == AppState { sessions: after.sessions, ..before }
    } else {
        after == before
    }
}

/// The session of a token that was shown, if it still lasts.
pub open spec fn session_of(state: AppState, shown: Option<Seq<char>>, now: Duration) -> Option<
    Seq<char>,
> {
    match shown {
        Some(token) => if live_sessions(state.sessions.contents(), now).contains_key(token) {
            Some(token)
        } else {
            None
        },
        None => None,
    }
}

fn check_token(state: &mut AppState, shown: Option<String>, now: Duration) -> (r: Result<
    String,
    StatusCode,
>)
    requires
        old(state).wf(),
    ensures
        sessions_checked(*old(state), *final(state), shown is Some, now),
        match r {
            Ok(token) => shown == Some(token) && session_of(*old(state), Some(token@), now)
                == Some(token@),
            Err(status) => status == StatusCode::Unauthorized && (shown matches Some(token)
                ==> session_of(*old(state), Some(token@), now) is None),
        },
{
    match shown {
        Some(token) => {
            expire_sessions(&mut state.sessions, now);
            if state.sessions.contains(&token) {
                Ok(token)
            } else {
                Err(StatusCode::Unauthorized)
            }
        },
        None => Err(StatusCode::Unauthorized),
    }
}

/// The session that an authorization header stands for. Sessions that have
/// lasted a day are over.
pub fn validate_bearer(state: &mut AppState, header: Option<&str>, now: Duration) -> (r: Result<
    String,
    StatusCode,
>)
    requires
        old(state).wf(),
    ensures
        ({
            let shown = bearer(
                match header {
                    Some(h) => Some(h@),
                    None => None,
                },
            );
            &&& sessions_checked(*old(state), *final(state), shown is Some, now)
            &&& match r {
                Ok(token) => session_of(*old(state), shown, now) == Some(token@),
                Err(status) => session_of(*old(state), shown, now) is None && status
                    == StatusCode::Unauthorized,
            }
        }),
{
    check_token(state, bearer_token(header), now)
}

/// The session that a request belongs to. Sessions that have lasted a day are
/// over.
pub fn validate_token(state: &mut AppState, headers: &HeaderMap<HeaderValue>, now: Duration) -> (r:
    Result<String, StatusCode>)
    requires
        old(state).wf(),
    ensures
        sessions_checked(*old(state), *final(state), shown_token(*headers) is Some, now),
        match r {
            Ok(token) => session_of(*old(state), shown_token(*headers), now) == Some(token@),
            Err(status) => session_of(*old(state), shown_token(*headers), now) is None && status
                == StatusCode::Unauthorized,
        },
{
    check_token(state, token_of(headers), now)
}

/// The viewer page.
pub struct Page {
    pub content_type: &'static str,
    pub cache_control: &'static str,
    pub body: String,
}

/// The viewer page, which browsers are not to keep.
pub fn index(viewer_html: String) -> (r: Page)
    ensures
        r.content_type@ == "text/html; charset=utf-8"@,
        r.cache_control@ == "no-store"@,
        r.body == viewer_html,
{
    Page { content_type: "text/html; charset=utf-8", cache_control: "no-store", body: viewer_html }
}

/// What can be captured.
pub struct TargetsResponse {
    pub monitors: Vec<MonitorInfo>,
    pub windows: Vec<WindowInfo>,
}

/// A granted request for what can be captured.
pub struct TargetsQuery {}

/// Lets a session ask for what can be captured.
pub fn get_targets(state: &mut AppState, headers: &HeaderMap<HeaderValue>, now: Duration) -> (r:
    Result<TargetsQuery, StatusCode>)
    requires
        old(state).wf(),
    ensures
        sessions_checked(*old(state), *final(state), shown_token(*headers) is Some, now),
        match r {
            Ok(_) => session_of(*old(state), shown_token(*headers), now) is Some,
            Err(status) => session_of(*old(state), shown_token(*headers), now) is None && status
                == StatusCode::Unauthorized,
        },
{
    match validate_token(state, headers, now) {
        Ok(_) => Ok(TargetsQuery {  }),
        Err(status) => Err(status),
    }
}

impl TargetsQuery {
    /// Answers with the monitors and the windows, where both could be listed.
    pub fn answer(
        self,
        monitors: Result<Vec<MonitorInfo>, CaptureError>,
        windows: Result<Vec<WindowInfo>, CaptureError>,
    ) -> (r: Result<TargetsResponse, StatusCode>)
        ensures
            r == (match (monitors, windows) {
                (Ok(m), Ok(w)) => Ok(TargetsResponse { monitors: m, windows: w }),
                _ => Err(StatusCode::InternalServerError),
            }),
    {
        match monitors {
            Ok(monitors) => match windows {
                Ok(windows) => Ok(TargetsResponse { monitors, windows }),
                Err(_) => Err(StatusCode::InternalServerError),
            },
            Err(_) => Err(StatusCode::InternalServerError),
        }
    }
}

/// A wish for what is captured and how often.
pub struct ConfigRequest {
    pub target_type: String,
    pub target_index: Option<usize>,
    pub target_title: Option<String>,
    pub fps: Option<u32>,
}

/// What a wish asks to be captured.
pub open spec fn wished_target(req: ConfigRequest) -> Option<Target> {
    if req.target_type@ == "monitor"@ {
        Some(
            Target::Monitor(
                match req.target_index {
                    Some(i) => i,
                    None => 0,
                },
            ),
        )
    } else if req.target_type@ == "window"@ {
        match req.target_title {
            Some(title) => Some(Target::Window(title)),
            None => None,
        }
    } else if req.target_type@ == "combined"@ {
        Some(Target::Combined)
    } else {
        None
    }
}

/// A number of frames a second that the stream can keep.
pub open spec fn clamped_fps(fps: u32) -> u32 {
    if fps < 1 {
        1
    } else if fps > 60 {
        60
    } else {
        fps
    }
}

/// What is captured, and how often, once a wish has been granted.
pub open spec fn configured(before: AppState, after: AppState, req: ConfigRequest, target: Target) -> bool {
    &&& after.capture.current() == target
    &&& after == AppState {
        capture: after.capture,
        fps: match req.fps {
            Some(fps) => clamped_fps(fps),
            None => before.fps,
        },
        ..before
    }
}

proof fn lemma_target_words()
    ensures
        "monitor"@ != "window"@,
        "monitor"@ != "combined"@,
        "window"@ != "combined"@,
{
    reveal_strlit("monitor");
    reveal_strlit("window");
    reveal_strlit("combined");
    assert("monitor"@[0] != "window"@[0]);
    assert("monitor"@[0] != "combined"@[0]);
    assert("window"@[0] != "combined"@[0]);
}

fn target_of(req: ConfigRequest) -> (r: Option<Target>)
    ensures
        r == wished_target(req),
{
    proof {
        lemma_target_words();
    }
    if same_text(req.target_type.as_str(), "monitor") {
        match req.target_index {
            Some(i) => Some(Target::Monitor(i)),
            None => Some(Target::Monitor(0)),
        }
    } else if same_text(req.target_type.as_str(), "window") {
        match req.target_title {
            Some(title) => Some(Target::Window(title)),
            None => None,
        }
    } else if same_text(req.target_type.as_str(), "combined") {
        Some(Target::Combined)
    } else {
        None
    }
}

/// Turns the capture to what a session wishes; gives the request for the
/// capture thread.
pub fn post_config(
    state: &mut AppState,
    headers: &HeaderMap<HeaderValue>,
    now: Duration,
    req: ConfigRequest,
) -> (r: Result<GrabRequest, StatusCode>)
    requires
        old(state).wf(),
    ensures
        final(state).wf(),
        match session_of(*old(state), shown_token(*headers), now) {
            None => r == Err::<GrabRequest, StatusCode>(StatusCode::Unauthorized)
                && sessions_checked(
                *old(state),
                *final(state),
                shown_token(*headers) is Some,
                now,
            ),
            Some(_) => exists|checked: AppState|
                #![trigger sessions_checked(*old(state), checked, true, now)]
                sessions_checked(*old(state), checked, true, now) && match wished_target(req) {
                    Some(target) => configured(checked, *final(state), req, target) && r == Ok::<
                        GrabRequest,
                        StatusCode,
                    >(GrabRequest::SetTarget(target)),
                    None => *final(state) == checked && r == Err::<GrabRequest, StatusCode>(
                        StatusCode::BadRequest,
                    ),
                },
        },
{
    match validate_token(state, headers, now) {
        Ok(_) => {
            let ghost checked = *state;
            let fps: Option<u32> = req.fps;
            match target_of(req) {
                Some(target) => {
                    let request: GrabRequest = state.capture.set_target(target);
                    match fps {
                        Some(fps) => {
                            let clamped: u32 = if fps < 1 {
                                1
                            } else if fps > 60 {
                                60
                            } else {
                                fps
                            };
                            state.set_fps(clamped);
                        },
                        None => {},
                    }
                    assert(sessions_checked(*old(state), checked, true, now));
                    Ok(request)
                },
                None => {
                    assert(sessions_checked(*old(state), checked, true, now));
                    Err(StatusCode::BadRequest)
                },
            }
        },
        Err(status) => Err(status),
    }
}

/// Asks for a key frame on behalf of a session.
pub fn post_keyframe(state: &mut AppState, headers: &HeaderMap<HeaderValue>, now: Duration) -> (r:
    Result<(), StatusCode>)
    requires
        old(state).wf(),
    ensures
        final(state).wf(),
        match session_of(*old(state), shown_token(*headers), now) {
            None => r == Err::<(), StatusCode>(StatusCode::Unauthorized) && sessions_checked(
                *old(state),
                *final(state),
                shown_token(*headers) is Some,
                now,
            ),
            Some(_) => r == Ok::<(), StatusCode>(()) && sessions_checked(
                AppState {
                    broadcaster: Broadcaster {
                        needs_keyframe: true,
                        ..old(state).broadcaster
                    },
                    ..*old(state)
                },
                *final(state),
                true,
                now,
            ),
        },
{
    match validate_token(state, headers, now) {
        Ok(_) => {
            state.broadcaster.request_keyframe();
            Ok(())
        },
        Err(status) => Err(status),
    }
}

/// An address under which the viewer may be reached.
pub struct CandidateRequest {
    pub candidate: IceCandidate,
}

/// What happens to an address of the viewer.
pub enum CandidateStep {
    /// Hand it to the session's connection.
    Deliver { token: String, candidate: IceCandidate },
    /// It waits for the connection.
    Queued,
}

/// The addresses that wait under a token.
pub open spec fn waiting(table: Map<Seq<char>, Vec<IceCandidate>>, token: Seq<char>) -> Seq<
    IceCandidate,
> {
    if table.contains_key(token) {
        table[token]@
    } else {
        Seq::empty()
    }
}

/// Takes the addresses that wait under a token.
pub(crate) fn take_waiting(table: &mut Table<String, Vec<IceCandidate>>, token: &String) -> (r: Vec<
    IceCandidate,
>)
    requires
        old(table).wf(),
    ensures
        final(table).wf(),
        r@ == waiting(old(table).contents(), token@),
        final(table).contents() == old(table).contents().remove(token@),
{
    match table.remove(token) {
        Some(list) => list,
        None => Vec::new(),
    }
}

/// A table in which one more address waits under a token.
pub open spec fn queued(
    before: Map<Seq<char>, Vec<IceCandidate>>,
    after: Map<Seq<char>, Vec<IceCandidate>>,
    token: Seq<char>,
    candidate: IceCandidate,
) -> bool {
    &&& after.dom() == before.dom().insert(token)
    &&& after[token]@ == waiting(before, token).push(candidate)
    &&& forall|k: Seq<char>| k != token && before.contains_key(k) ==> #[trigger] after[k] == before[k]
}

/// What an address of the viewer does: it goes to the connection of the
/// session, or waits until there is one.
pub open spec fn candidate_posted(
    checked: AppState,
    after: AppState,
    token: Seq<char>,
    candidate: IceCandidate,
    step: CandidateStep,
) -> bool {
    if checked.peer_connections.contents().contains_key(token) {
        &&& after == checked
        &&& step matches CandidateStep::Deliver { token: t, candidate: c }
        &&& t@ == token
        &&& c == candidate
    } else {
        &&& step is Queued
        &&& queued(
            checked.pending_client_candidates.contents(),
            after.pending_client_candidates.contents(),
            token,
            candidate,
        )
        &&& after == AppState {
            pending_client_candidates: after.pending_client_candidates,
            ..checked
        }
    }
}

fn queue_candidate(
    table: &mut Table<String, Vec<IceCandidate>>,
    token: String,
    candidate: IceCandidate,
)
    requires
        old(table).wf(),
    ensures
        final(table).wf(),
        queued(old(table).contents(), final(table).contents(), token@, candidate),
{
    let ghost before = table.contents();
    let ghost key = token@;
    let mut list: Vec<IceCandidate> = take_waiting(table, &token);
    list.push(candidate);
    table.insert(token, list);
    assert(table.contents().dom() =~= before.dom().insert(key));
}

/// Takes an address of the viewer for a session.
pub fn add_candidate(state: &mut AppState, token: String, candidate: IceCandidate) -> (step:
    CandidateStep)
    requires
        old(state).wf(),
    ensures
        final(state).wf(),
        candidate_posted(*old(state), *final(state), token@, candidate, step),
{
    if state.peer_connections.contains(&token) {
        CandidateStep::Deliver { token, candidate }
    } else {
        queue_candidate(&mut state.pending_client_candidates, token, candidate);
        CandidateStep::Queued
    }
}

/// Takes an address of the viewer from a request.
pub fn post_candidate(
    state: &mut AppState,
    headers: &HeaderMap<HeaderValue>,
    now: Duration,
    req: CandidateRequest,
) -> (r: Result<CandidateStep, StatusCode>)
    requires
        old(state).wf(),
    ensures
        final(state).wf(),
        match session_of(*old(state), shown_token(*headers), now) {
            None => r == Err::<CandidateStep, StatusCode>(StatusCode::Unauthorized)
                && sessions_checked(
                *old(state),
                *final(state),
                shown_token(*headers) is Some,
                now,
            ),
            Some(token) => exists|checked: AppState|
                #![trigger sessions_checked(*old(state), checked, true, now)]
                sessions_checked(*old(state), checked, true, now) && r is Ok && candidate_posted(
                    checked,
                    *final(state),
                    token,
                    req.candidate,
                    r->Ok_0,
                ),
        },
{
    match validate_token(state, headers, now) {
        Ok(token) => {
            let ghost checked = *state;
            let step: CandidateStep = add_candidate(state, token, req.candidate);
            assert(sessions_checked(*old(state), checked, true, now));
            Ok(step)
        },
        Err(status) => Err(status),
    }
}

/// The server's addresses that a session had not fetched.
pub struct CandidatesResponse {
    pub candidates: Vec<IceCandidate>,
}

/// What fetching the server's addresses does: they are given out in order and
/// do not wait any more.
pub open spec fn candidates_fetched(
    checked: AppState,
    after: AppState,
    token: Seq<char>,
    given: Seq<IceCandidate>,
) -> bool {
    &&& given == waiting(checked.server_candidates.contents(), token)
    &&& after.server_candidates.contents() == checked.server_candidates.contents().remove(token)
    &&& after == AppState { server_candidates: after.server_candidates, ..checked }
}

/// Gives a session the server's addresses that it has not fetched yet.
pub fn get_candidates(state: &mut AppState, headers: &HeaderMap<HeaderValue>, now: Duration) -> (r:
    Result<CandidatesResponse, StatusCode>)
    requires
        old(state).wf(),
    ensures
        final(state).wf(),
        match session_of(*old(state), shown_token(*headers), now) {
            None => r == Err::<CandidatesResponse, StatusCode>(StatusCode::Unauthorized)
                && sessions_checked(
                *old(state),
                *final(state),
                shown_token(*headers) is Some,
                now,
            ),
            Some(token) => exists|checked: AppState|
                #![trigger sessions_checked(*old(state), checked, true, now)]
                sessions_checked(*old(state), checked, true, now) && r is Ok && candidates_fetched(
                    checked,
                    *final(state),
                    token,
                    r->Ok_0.candidates@,
                ),
        },
{
    match validate_token(state, headers, now) {
        Ok(token) => {
            let ghost checked = *state;
            let candidates: Vec<IceCandidate> = take_waiting(&mut state.server_candidates, &token);
            assert(sessions_checked(*old(state), checked, true, now));
            Ok(CandidatesResponse { candidates })
        },
        Err(status) => Err(status),
    }
}

/// A session lasts one day from the login on, and not longer.
pub proof fn sessions_last_a_day(
    before: AppState,
    after: AppState,
    ip: ClientIp,
    token: Seq<char>,
    now: Duration,
    later: Duration,
)
    requires
        login_granted(before, after, ip, token, now),
    ensures
        session_of(after, Some(token), later) == if nanos(later) < nanos(now) + SESSION_SECONDS
            * 1_000_000_000 {
            Some(token)
        } else {
            None
        },
{
    let live = live_sessions(after.sessions.contents(), later);
    assert(live.contains_key(token) == is_live(now, later));
}

/// A login does not end or shorten the sessions of others.
pub proof fn logins_leave_other_sessions(
    before: AppState,
    after: AppState,
    ip: ClientIp,
    token: Seq<char>,
    other: Seq<char>,
    now: Duration,
    later: Duration,
)
    requires
        login_granted(before, after, ip, token, now),
        other != token,
    ensures
        session_of(after, Some(other), later) == session_of(before, Some(other), later),
{
    assert(live_sessions(after.sessions.contents(), later).contains_key(other) == live_sessions(
        before.sessions.contents(),
        later,
    ).contains_key(other));
}

/// Sessions that are over do not come back, and looking at a token ends none
/// that still last.
pub proof fn looking_at_a_token_keeps_live_sessions(
    before: AppState,
    after: AppState,
    shown: bool,
    now: Duration,
    token: Seq<char>,
    later: Duration,
)
    requires
        sessions_checked(before, after, shown, now),
        nanos(now) <= nanos(later),
    ensures
        session_of(after, Some(token), later) == session_of(before, Some(token), later),
{
    assert(live_sessions(after.sessions.contents(), later).contains_key(token) == live_sessions(
        before.sessions.contents(),
        later,
    ).contains_key(token));
}

/// Whether a token that was shown is that of a session that began less than a
/// day ago.
pub open spec fn has_session(state: AppState, shown: Option<Seq<char>>, now: Duration) -> bool {
    &&& shown matches Some(token)
    &&& state.sessions.contents().contains_key(token)
    &&& nanos(now) < nanos(state.sessions.contents()[token]) + 86_400_000_000_000
}

/// Whether all sessions that began less than a day ago are still there as they
/// were, and no new ones.
pub open spec fn keeps_sessions(before: AppState, after: AppState, now: Duration) -> bool {
    &&& forall|k: Seq<char>| #[trigger]
        after.sessions.contents().contains_key(k) ==> before.sessions.contents().contains_key(k)
            && after.sessions.contents()[k] == before.sessions.contents()[k]
    &&& forall|k: Seq<char>| #[trigger]
        has_session(before, Some(k), now) ==> after.sessions.contents().contains_key(k)
}

/// Looking at a token keeps every session that began less than a day ago.
pub proof fn lasting_sessions_are_kept(before: AppState, after: AppState, shown: bool, now: Duration)
    requires
        sessions_checked(before, after, shown, now),
    ensures
        keeps_sessions(before, after, now),
{
    assert forall|k: Seq<char>| #[trigger] has_session(
        before,
        Some(k),
        now,
    ) implies after.sessions.contents().contains_key(k) by {
        let created = before.sessions.contents()[k];
        assert(is_live(created, now));
    }
}

/// A token that is shown stands for a session exactly if that began less than a
/// day ago.
pub proof fn lasting_sessions_are_found(state: AppState, shown: Option<Seq<char>>, now: Duration)
    ensures
        session_of(state, shown, now) is Some <==> has_session(state, shown, now),
        session_of(state, shown, now) is Some ==> session_of(state, shown, now) == shown,
{
    if let Some(token) = shown {
        let live = live_sessions(state.sessions.contents(), now);
        assert(live.contains_key(token) <==> has_session(state, shown, now));
    }
}

/// A request belongs to a session exactly if it shows the token of one that
/// began less than a day ago; it is then told that token. Looking changes
/// nothing but that sessions that are over go.
pub proof fn tokens_stand_for_sessions(
    state: &&mut AppState,
    before: AppState,
    after: AppState,
    headers: HeaderMap<HeaderValue>,
    now: Duration,
    r: Result<String, StatusCode>,
)
    requires
        call_ensures(validate_token, (*state, &headers, now), r),
        before == **state,
        after == *final(*state),
    ensures
        match r {
            Ok(token) => shown_token(headers) == Some(token@) && has_session(
                before,
                shown_token(headers),
                now,
            ),
            Err(status) => !has_session(before, shown_token(headers), now) && status
                == StatusCode::Unauthorized,
        },
        keeps_sessions(before, after, now),
        after == (AppState { sessions: after.sessions, ..before }),
{
    lasting_sessions_are_found(before, shown_token(headers), now);
    lasting_sessions_are_kept(before, after, shown_token(headers) is Some, now);
}

/// Whether an authorization header shows a token.
pub open spec fn shows(header: Option<&str>, token: Seq<char>) -> bool {
    header matches Some(h) && h@ == "Bearer "@ + token
}

/// The same holds of a token that an authorization header shows.
pub proof fn headers_stand_for_sessions(
    state: &&mut AppState,
    before: AppState,
    after: AppState,
    header: Option<&str>,
    now: Duration,
    r: Result<String, StatusCode>,
)
    requires
        call_ensures(validate_bearer, (*state, header, now), r),
        before == **state,
        after == *final(*state),
    ensures
        match r {
            Ok(token) => has_session(before, Some(token@), now) && shows(header, token@),
            Err(status) => status == StatusCode::Unauthorized && forall|token: Seq<char>|
                shows(header, token) ==> !#[trigger] has_session(before, Some(token), now),
        },
        keeps_sessions(before, after, now),
        after == (AppState { sessions: after.sessions, ..before }),
{
    let shown = bearer(
        match header {
            Some(h) => Some(h@),
            None => None,
        },
    );
    lasting_sessions_are_found(before, shown, now);
    lasting_sessions_are_kept(before, after, shown is Some, now);
    if let Some(h) = header {
        assert forall|token: Seq<char>| h@ == "Bearer "@ + token <==> bearer(Some(h@)) == Some(
            token,
        ) by {
            tokens_follow_the_word_bearer(h@, token);
        }
    }
}

/// A wish is granted exactly to a session that names something to capture: the
/// capture then turns to the monitor of that number, or the first one, to the
/// window of that title, or to all monitors. A wished frame rate from one to
/// sixty becomes the frame rate as it was wished; one below becomes one and one
/// above becomes sixty; without a wish it stays. Nothing else changes.
pub proof fn wishes_of_sessions_are_granted(
    state: &&mut AppState,
    before: AppState,
    after: AppState,
    headers: HeaderMap<HeaderValue>,
    now: Duration,
    req: ConfigRequest,
    r: Result<GrabRequest, StatusCode>,
)
    requires
        call_ensures(post_config, (*state, &headers, now, req), r),
        before == **state,
        after == *final(*state),
    ensures
        r == Err::<GrabRequest, StatusCode>(StatusCode::Unauthorized) <==> !has_session(
            before,
            shown_token(headers),
            now,
        ),
        r is Ok <==> has_session(before, shown_token(headers), now) && (req.target_type@
            == "monitor"@ || req.target_type@ == "combined"@ || req.target_type@ == "window"@
            && req.target_title is Some),
        r is Err ==> r == Err::<GrabRequest, StatusCode>(StatusCode::Unauthorized) || r == Err::<
            GrabRequest,
            StatusCode,
        >(StatusCode::BadRequest),
        r matches Ok(request) ==> {
            let target = after.capture.current();
            &&& request == GrabRequest::SetTarget(target)
            &&& req.target_type@ == "monitor"@ ==> target == Target::Monitor(
                match req.target_index {
                    Some(wished) => wished,
                    None => 0,
                },
            )
            &&& req.target_type@ == "window"@ ==> (req.target_title matches Some(title) && target
                == Target::Window(title))
            &&& req.target_type@ == "combined"@ ==> target is Combined
            &&& match req.fps {
                Some(wished) => {
                    &&& 1 <= wished <= 60 ==> after.fps == wished
                    &&& wished < 1 ==> after.fps == 1
                    &&& wished > 60 ==> after.fps == 60
                },
                None => after.fps == before.fps,
            }
        },
        r is Err ==> after.capture == before.capture && after.fps == before.fps,
        keeps_sessions(before, after, now),
        after == (AppState {
            capture: after.capture,
            fps: after.fps,
            sessions: after.sessions,
            ..before
        }),
{
    lemma_target_words();
    lasting_sessions_are_found(before, shown_token(headers), now);
    if has_session(before, shown_token(headers), now) {
        let checked = choose|checked: AppState|
            #![trigger sessions_checked(before, checked, true, now)]
            sessions_checked(before, checked, true, now) && match wished_target(req) {
                Some(target) => configured(checked, after, req, target) && r == Ok::<
                    GrabRequest,
                    StatusCode,
                >(GrabRequest::SetTarget(target)),
                None => after == checked && r == Err::<GrabRequest, StatusCode>(
                    StatusCode::BadRequest,
                ),
            };
        lasting_sessions_are_kept(before, checked, true, now);
    } else {
        lasting_sessions_are_kept(before, after, shown_token(headers) is Some, now);
    }
}

/// Different wished rates that the stream can keep make different rates, and the
/// same make the same.
pub proof fn different_rates_stay_different(
    first: &&mut AppState,
    second: &&mut AppState,
    headers: HeaderMap<HeaderValue>,
    now: Duration,
    a: ConfigRequest,
    b: ConfigRequest,
    request_a: GrabRequest,
    request_b: GrabRequest,
    after_a: AppState,
    after_b: AppState,
)
    requires
        call_ensures(post_config, (*first, &headers, now, a), Ok(request_a)),
        call_ensures(post_config, (*second, &headers, now, b), Ok(request_b)),
        after_a == *final(*first),
        after_b == *final(*second),
        a.fps matches Some(fps) && 1 <= fps <= 60,
        b.fps matches Some(fps) && 1 <= fps <= 60,
    ensures
        after_a.fps == after_b.fps <==> a.fps == b.fps,
{
    wishes_of_sessions_are_granted(first, **first, after_a, headers, now, a, Ok(request_a));
    wishes_of_sessions_are_granted(second, **second, after_b, headers, now, b, Ok(request_b));
}

/// A session that asks for a key frame gets the stream to make one; nobody else
/// does, and nothing else changes.
pub proof fn key_frames_are_for_sessions(
    state: &&mut AppState,
    before: AppState,
    after: AppState,
    headers: HeaderMap<HeaderValue>,
    now: Duration,
    r: Result<(), StatusCode>,
)
    requires
        call_ensures(post_keyframe, (*state, &headers, now), r),
        before == **state,
        after == *final(*state),
    ensures
        r is Ok <==> has_session(before, shown_token(headers), now),
        r matches Err(status) ==> status == StatusCode::Unauthorized,
        after.broadcaster.needs_keyframe <==> before.broadcaster.needs_keyframe || r is Ok,
        after.broadcaster.running == before.broadcaster.running,
        after.broadcaster.subscriber_count == before.broadcaster.subscriber_count,
        keeps_sessions(before, after, now),
        after == (AppState {
            broadcaster: after.broadcaster,
            sessions: after.sessions,
            ..before
        }),
{
    lasting_sessions_are_found(before, shown_token(headers), now);
    if has_session(before, shown_token(headers), now) {
        let asked = AppState {
            broadcaster: Broadcaster { needs_keyframe: true, ..before.broadcaster },
            ..before
        };
        lasting_sessions_are_kept(asked, after, true, now);
        assert forall|k: Seq<char>| #[trigger] has_session(
            before,
            Some(k),
            now,
        ) implies after.sessions.contents().contains_key(k) by {
            assert(has_session(asked, Some(k), now));
        }
    } else {
        lasting_sessions_are_kept(before, after, shown_token(headers) is Some, now);
    }
}

/// What can be captured is told to sessions only.
pub proof fn targets_are_for_sessions(
    state: &&mut AppState,
    before: AppState,
    after: AppState,
    headers: HeaderMap<HeaderValue>,
    now: Duration,
    r: Result<TargetsQuery, StatusCode>,
)
    requires
        call_ensures(get_targets, (*state, &headers, now), r),
        before == **state,
        after == *final(*state),
    ensures
        r is Ok <==> has_session(before, shown_token(headers), now),
        r matches Err(status) ==> status == StatusCode::Unauthorized,
        keeps_sessions(before, after, now),
        after == (AppState { sessions: after.sessions, ..before }),
{
    lasting_sessions_are_found(before, shown_token(headers), now);
    lasting_sessions_are_kept(before, after, shown_token(headers) is Some, now);
}

/// All that was listed is told, in order, and nothing where either list is
/// missing.
pub proof fn all_targets_are_told(
    query: TargetsQuery,
    monitors: Result<Vec<MonitorInfo>, CaptureError>,
    windows: Result<Vec<WindowInfo>, CaptureError>,
    r: Result<TargetsResponse, StatusCode>,
)
    requires
        call_ensures(TargetsQuery::answer, (query, monitors, windows), r),
    ensures
        r is Ok <==> monitors is Ok && windows is Ok,
        r matches Ok(told) ==> monitors == Ok::<Vec<MonitorInfo>, CaptureError>(told.monitors)
            && windows == Ok::<Vec<WindowInfo>, CaptureError>(told.windows),
        r matches Err(status) ==> status == StatusCode::InternalServerError,
{
}

/// A login succeeds exactly with the password. A right one begins a session
/// under the token that is answered, from now on, and touches no other session;
/// a wrong one begins none. Nothing but sessions, the count of wrong passwords
/// and the end of the server depends on logins.
pub proof fn logins_go_by_the_password(
    state: &&mut AppState,
    before: AppState,
    after: AppState,
    ip: ClientIp,
    req: AuthRequest,
    now: Duration,
    r: Result<String, StatusCode>,
    other: Seq<char>,
)
    requires
        call_ensures(post_auth, (*state, ip, req, now), r),
        before == **state,
        after == *final(*state),
        before.failures_of(ip) < u32::MAX,
    ensures
        r is Ok <==> req.password@ == before.password@,
        r matches Ok(token) ==> {
            &&& has_session(after, Some(token@), now)
            &&& after.sessions.contents()[token@] == now
            &&& other != token@ ==> has_session(after, Some(other), now) == has_session(
                before,
                Some(other),
                now,
            )
            &&& after.failures_of(ip) == 0
            &&& after.shutdown == before.shutdown
        },
        r matches Err(status) ==> {
            &&& after.sessions == before.sessions
            &&& after.failures_of(ip) == before.failures_of(ip) + 1
            &&& after.shutdown == (before.shutdown || before.failures_of(ip) + 1 >= 10)
            &&& status == (if before.failures_of(ip) + 1 >= 10 {
                StatusCode::TooManyRequests
            } else {
                StatusCode::Forbidden
            })
        },
        forall|elsewhere: ClientIp|
            elsewhere != ip ==> #[trigger] after.failures_of(elsewhere) == before.failures_of(
                elsewhere,
            ),
        after == (AppState {
            sessions: after.sessions,
            auth_failures: after.auth_failures,
            shutdown: after.shutdown,
            ..before
        }),
{
}

/// An address of the viewer is taken from sessions only. It goes to the
/// session's own connection where there is one, and otherwise waits behind
/// those that wait for it already; no other session's addresses change.
pub proof fn addresses_are_taken_from_sessions(
    state: &&mut AppState,
    before: AppState,
    after: AppState,
    headers: HeaderMap<HeaderValue>,
    now: Duration,
    req: CandidateRequest,
    r: Result<CandidateStep, StatusCode>,
    other: Seq<char>,
)
    requires
        call_ensures(post_candidate, (*state, &headers, now, req), r),
        before == **state,
        after == *final(*state),
    ensures
        r is Ok <==> has_session(before, shown_token(headers), now),
        r matches Err(status) ==> status == StatusCode::Unauthorized && after
            .pending_client_candidates == before.pending_client_candidates,
        r matches Ok(step) ==> {
            let token = shown_token(headers)->Some_0;
            if before.peer_connections.contents().contains_key(token) {
                &&& step matches CandidateStep::Deliver { token: t, candidate }
                &&& t@ == token
                &&& candidate == req.candidate
                &&& after.pending_client_candidates == before.pending_client_candidates
            } else {
                &&& step is Queued
                &&& waiting(after.pending_client_candidates.contents(), token) == waiting(
                    before.pending_client_candidates.contents(),
                    token,
                ).push(req.candidate)
            }
        },
        Some(other) != shown_token(headers) ==> waiting(
            after.pending_client_candidates.contents(),
            other,
        ) == waiting(before.pending_client_candidates.contents(), other),
        keeps_sessions(before, after, now),
        after == (AppState {
            pending_client_candidates: after.pending_client_candidates,
            sessions: after.sessions,
            ..before
        }),
{
    lasting_sessions_are_found(before, shown_token(headers), now);
    if has_session(before, shown_token(headers), now) {
        let token = shown_token(headers)->Some_0;
        let checked = choose|checked: AppState|
            #![trigger sessions_checked(before, checked, true, now)]
            sessions_checked(before, checked, true, now) && r is Ok && candidate_posted(
                checked,
                after,
                token,
                req.candidate,
                r->Ok_0,
            );
        lasting_sessions_are_kept(before, checked, true, now);
        if other != token {
            lemma_others_wait_as_before(checked, after, token, req.candidate, r->Ok_0, other);
        }
    } else {
        lasting_sessions_are_kept(before, after, shown_token(headers) is Some, now);
    }
}

proof fn lemma_others_wait_as_before(
    checked: AppState,
    after: AppState,
    token: Seq<char>,
    candidate: IceCandidate,
    step: CandidateStep,
    other: Seq<char>,
)
    requires
        candidate_posted(checked, after, token, candidate, step),
        other != token,
    ensures
        waiting(after.pending_client_candidates.contents(), other) == waiting(
            checked.pending_client_candidates.contents(),
            other,
        ),
{
    let from = checked.pending_client_candidates.contents();
    let to = after.pending_client_candidates.contents();
    if step is Queued {
        assert(to.contains_key(other) == from.contains_key(other)) by {
            assert(to.dom() == from.dom().insert(token));
        }
        if from.contains_key(other) {
            assert(to[other] == from[other]);
        }
    }
}

/// The server's addresses are given to sessions only: to each those that wait
/// for it, all of them, in order. None waits for it then; those of other
/// sessions do.
pub proof fn addresses_are_given_to_sessions(
    state: &&mut AppState,
    before: AppState,
    after: AppState,
    headers: HeaderMap<HeaderValue>,
    now: Duration,
    r: Result<CandidatesResponse, StatusCode>,
    other: Seq<char>,
)
    requires
        call_ensures(get_candidates, (*state, &headers, now), r),
        before == **state,
        after == *final(*state),
    ensures
        r is Ok <==> has_session(before, shown_token(headers), now),
        r matches Err(status) ==> status == StatusCode::Unauthorized && after.server_candidates
            == before.server_candidates,
        r matches Ok(given) ==> {
            let token = shown_token(headers)->Some_0;
            &&& given.candidates@ == waiting(before.server_candidates.contents(), token)
            &&& waiting(after.server_candidates.contents(), token).len() == 0
        },
        Some(other) != shown_token(headers) ==> waiting(
            after.server_candidates.contents(),
            other,
        ) == waiting(before.server_candidates.contents(), other),
        keeps_sessions(before, after, now),
        after == (AppState {
            server_candidates: after.server_candidates,
            sessions: after.sessions,
            ..before
        }),
{
    lasting_sessions_are_found(before, shown_token(headers), now);
    if has_session(before, shown_token(headers), now) {
        let token = shown_token(headers)->Some_0;
        let checked = choose|checked: AppState|
            #![trigger sessions_checked(before, checked, true, now)]
            sessions_checked(before, checked, true, now) && r is Ok && candidates_fetched(
                checked,
                after,
                token,
                r->Ok_0.candidates@,
            );
        lasting_sessions_are_kept(before, checked, true, now);
    } else {
        lasting_sessions_are_kept(before, after, shown_token(headers) is Some, now);
    }
}

/// Whether each state follows from the one before by a wrong password from
/// `ip`.
pub open spec fn wrong_passwords(
    states: Seq<AppState>,
    answers: Seq<StatusCode>,
    ip: ClientIp,
) -> bool {
    &&& states.len() == answers.len() + 1
    &&& forall|i: int|
        0 <= i < answers.len() ==> login_refused(
            states[i],
            #[trigger] states[i + 1],
            ip,
            answers[i],
        )
}

/// Of wrong passwords in a row from one address, the first nine are refused and
/// the tenth ends the server; so does each that follows.
pub proof fn tenth_wrong_password_ends_the_server(
    states: Seq<AppState>,
    answers: Seq<StatusCode>,
    ip: ClientIp,
)
    requires
        wrong_passwords(states, answers, ip),
        states[0].failures_of(ip) == 0,
        answers.len() <= u32::MAX,
    ensures
        forall|i: int|
            0 <= i < answers.len() ==> #[trigger] answers[i] == if i < 9 {
                StatusCode::Forbidden
            } else {
                StatusCode::TooManyRequests
            },
        states.last().failures_of(ip) == answers.len(),
        states.last().shutdown == (states[0].shutdown || answers.len() >= 10),
    decreases answers.len(),
{
    if answers.len() > 0 {
        let n = answers.len() - 1;
        let fewer = states.drop_last();
        assert forall|i: int| 0 <= i < n implies login_refused(
            fewer[i],
            #[trigger] fewer[i + 1],
            ip,
            answers.drop_last()[i],
        ) by {
            assert(login_refused(states[i], states[i + 1], ip, answers[i]));
        }
        tenth_wrong_password_ends_the_server(fewer, answers.drop_last(), ip);
        assert(fewer.last() == states[n]);
        assert(login_refused(states[n], states[n + 1], ip, answers[n]));
        assert forall|i: int| 0 <= i < answers.len() implies #[trigger] answers[i] == if i < 9 {
            StatusCode::Forbidden
        } else {
            StatusCode::TooManyRequests
        } by {
            if i < n {
                assert(answers.drop_last()[i] == answers[i]);
            }
        }
    }
}

/// A right password makes an address start from nothing, and is no matter to
/// any other address.
pub proof fn right_password_forgets_wrong_ones(
    before: AppState,
    after: AppState,
    ip: ClientIp,
    other: ClientIp,
    token: Seq<char>,
    now: Duration,
)
    requires
        login_granted(before, after, ip, token, now),
    ensures
        after.failures_of(ip) == 0,
        other != ip ==> after.failures_of(other) == before.failures_of(other),
{
}

/// Addresses of the viewer that come before the connection wait in the order
/// in which they came.
pub proof fn candidates_wait_in_order(
    first: AppState,
    second: AppState,
    third: AppState,
    token: Seq<char>,
    a: IceCandidate,
    b: IceCandidate,
    step_a: CandidateStep,
    step_b: CandidateStep,
)
    requires
        !first.peer_connections.contents().contains_key(token),
        candidate_posted(first, second, token, a, step_a),
        candidate_posted(second, third, token, b, step_b),
    ensures
        waiting(third.pending_client_candidates.contents(), token) == waiting(
            first.pending_client_candidates.contents(),
            token,
        ).push(a).push(b),
{
}

/// How far the search for the server's addresses has come.
#[derive(Clone, Copy, Debug, PartialEq, Eq, Structural)]
pub enum GatheringState {
    Unspecified,
    New,
    Gathering,
    Complete,
}

/// How a connection stands.
#[derive(Clone, Copy, Debug, PartialEq, Eq, Structural)]
pub enum ConnectionState {
    Unspecified,
    New,
    Connecting,
    Connected,
    Disconnected,
    Failed,
    Closed,
}

/// What the change of a connection means for its viewer.
#[derive(Clone, Copy, Debug, PartialEq, Eq, Structural)]
pub enum ConnectionSignal {
    Connected,
    Disconnected,
}

/// Watches the connection of a session.
pub struct ConnHandler {
    pub session_token: String,
}

/// What an address of the server does: it waits for the session, where the
/// session has not fetched what waited before, and where it is an address.
pub open spec fn candidate_found(
    before: AppState,
    after: AppState,
    token: Seq<char>,
    candidate: Option<IceCandidate>,
) -> bool {
    match candidate {
        Some(c) => if c.candidate@.len() > 0 && before.server_candidates.contents().contains_key(
            token,
        ) {
            &&& queued(
                before.server_candidates.contents(),
                after.server_candidates.contents(),
                token,
                c,
            )
            &&& after == AppState { server_candidates: after.server_candidates, ..before }
        } else {
            after == before
        },
        None => after == before,
    }
}

/// An address of the server is given out once, and those that are found after a
/// session has fetched are not kept for it.
pub proof fn candidates_are_given_once(
    first: AppState,
    second: AppState,
    third: AppState,
    fourth: AppState,
    token: Seq<char>,
    by: Seq<char>,
    found: Option<IceCandidate>,
    given: Seq<IceCandidate>,
    again: Seq<IceCandidate>,
)
    requires
        candidates_fetched(first, second, token, given),
        candidate_found(second, third, by, found),
        candidates_fetched(third, fourth, token, again),
    ensures
        again.len() == 0,
{
    assert(!third.server_candidates.contents().contains_key(token));
}

impl ConnHandler {
    /// Keeps an address of the server for the session.
    pub fn on_ice_candidate(&self, state: &mut AppState, candidate: Option<IceCandidate>)
        requires
            old(state).wf(),
        ensures
            final(state).wf(),
            candidate_found(*old(state), *final(state), self.session_token@, candidate),
    {
        match candidate {
            Some(c) => {
                if !same_text(c.candidate.as_str(), "") {
                    proof {
                        reveal_strlit("");
                        assert(c.candidate@.len() > 0) by {
                            assert(c.candidate@.len() == 0 ==> c.candidate@ =~= ""@);
                        }
                    }
                    if state.server_candidates.contains(&self.session_token) {
                        queue_candidate(
                            &mut state.server_candidates,
                            self.session_token.clone(),
                            c,
                        );
                    }
                } else {
                    proof {
                        reveal_strlit("");
                    }
                }
            },
            None => {},
        }
    }

    /// Whether the search for the server's addresses is over.
    pub fn on_ice_gathering_state_change(&self, state: GatheringState) -> (complete: bool)
        ensures
            complete == (state == GatheringState::Complete),
    {
        state == GatheringState::Complete
    }

    /// What the change of the connection means for the viewer.
    pub fn on_connection_state_change(&self, state: ConnectionState) -> (r: Option<
        ConnectionSignal,
    >)
        ensures
            r == (match state {
                ConnectionState::Connected => Some(ConnectionSignal::Connected),
                ConnectionState::Failed => Some(ConnectionSignal::Disconnected),
                ConnectionState::Disconnected => Some(ConnectionSignal::Disconnected),
                ConnectionState::Closed => Some(ConnectionSignal::Disconnected),
                _ => None,
            }),
    {
        match state {
            ConnectionState::Connected => Some(ConnectionSignal::Connected),
            ConnectionState::Failed => Some(ConnectionSignal::Disconnected),
            ConnectionState::Disconnected => Some(ConnectionSignal::Disconnected),
            ConnectionState::Closed => Some(ConnectionSignal::Disconnected),
            _ => None,
        }
    }
}

/// An address of the server waits for the session of its connection, behind
/// those that wait already, if it is one and the session has an offer open; no
/// other session's addresses change, and nothing else does.
pub proof fn found_addresses_wait_for_their_session(
    handler: ConnHandler,
    state: &&mut AppState,
    before: AppState,
    after: AppState,
    candidate: Option<IceCandidate>,
    other: Seq<char>,
)
    requires
        call_ensures(ConnHandler::on_ice_candidate, (&handler, *state, candidate), ()),
        before == **state,
        after == *final(*state),
    ensures
        ({
            let token = handler.session_token@;
            let from = waiting(before.server_candidates.contents(), token);
            let to = waiting(after.server_candidates.contents(), token);
            match candidate {
                None => to == from,
                Some(c) => if c.candidate@.len() == 0
                    || !before.server_candidates.contents().contains_key(token) {
                    to == from
                } else {
                    to == from.push(c)
                },
            }
        }),
        other != handler.session_token@ ==> waiting(after.server_candidates.contents(), other)
            == waiting(before.server_candidates.contents(), other),
        after == (AppState { server_candidates: after.server_candidates, ..before }),
{
    let from = before.server_candidates.contents();
    let to = after.server_candidates.contents();
    let token = handler.session_token@;
    if let Some(c) = candidate {
        if c.candidate@.len() > 0 && from.contains_key(token) && other != token {
            assert(to.contains_key(other) == from.contains_key(other)) by {
                assert(to.dom() == from.dom().insert(token));
            }
            if from.contains_key(other) {
                assert(to[other] == from[other]);
            }
        }
    }
}

/// A connection is lost exactly when it failed, was cut or was closed, and
/// stands exactly when it says so.
pub proof fn connections_are_told_by_their_state(
    handler: ConnHandler,
    state: ConnectionState,
    r: Option<ConnectionSignal>,
)
    requires
        call_ensures(ConnHandler::on_connection_state_change, (&handler, state), r),
    ensures
        r == Some(ConnectionSignal::Connected) <==> state == ConnectionState::Connected,
        r == Some(ConnectionSignal::Disconnected) <==> state == ConnectionState::Failed || state
            == ConnectionState::Disconnected || state == ConnectionState::Closed,
{
}

/// The servers that tell this machine under which addresses it can be reached.
pub fn stun_urls() -> (r: Vec<String>)
    ensures
        r@.len() == 1,
        r@[0]@ == "stun:stun.l.google.com:19302"@,
{
    let mut urls: Vec<String> = Vec::new();
    urls.push("stun:stun.l.google.com:19302".to_owned());
    urls
}

/// How a request is made.
#[derive(Clone, Copy, Debug, PartialEq, Eq, Structural)]
pub enum Method {
    Get,
    Post,
}

/// What a request is for.
#[derive(Clone, Copy, Debug, PartialEq, Eq, Structural)]
pub enum Endpoint {
    Index,
    Auth,
    Offer,
    Targets,
    Config,
    Keyframe,
    Candidate,
    Candidates,
}

/// Where a request goes.
#[derive(Clone, Copy, Debug)]
pub struct Route {
    pub path: &'static str,
    pub method: Method,
    pub endpoint: Endpoint,
}

/// The path and the method of each endpoint.
pub open spec fn address_of(endpoint: Endpoint) -> (Seq<char>, Method) {
    match endpoint {
        Endpoint::Index => ("/"@, Method::Get),
        Endpoint::Auth => ("/api/auth"@, Method::Post),
        Endpoint::Offer => ("/offer"@, Method::Post),
        Endpoint::Targets => ("/api/targets"@, Method::Get),
        Endpoint::Config => ("/api/config"@, Method::Post),
        Endpoint::Keyframe => ("/api/keyframe"@, Method::Post),
        Endpoint::Candidate => ("/api/candidate"@, Method::Post),
        Endpoint::Candidates => ("/api/candidates"@, Method::Get),
    }
}

/// All endpoints.
pub open spec fn endpoints() -> Seq<Endpoint> {
    seq![
        Endpoint::Index,
        Endpoint::Auth,
        Endpoint::Offer,
        Endpoint::Targets,
        Endpoint::Config,
        Endpoint::Keyframe,
        Endpoint::Candidate,
        Endpoint::Candidates,
    ]
}

/// Different endpoints have different paths.
pub proof fn paths_tell_endpoints_apart(a: Endpoint, b: Endpoint)
    requires
        address_of(a).0 == address_of(b).0,
    ensures
        a == b,
{
    reveal_strlit("/");
    reveal_strlit("/api/auth");
    reveal_strlit("/offer");
    reveal_strlit("/api/targets");
    reveal_strlit("/api/config");
    reveal_strlit("/api/keyframe");
    reveal_strlit("/api/candidate");
    reveal_strlit("/api/candidates");
    assert("/"@.len() == 1);
    assert("/api/auth"@.len() == 9);
    assert("/offer"@.len() == 6);
    assert("/api/targets"@.len() == 12);
    assert("/api/config"@.len() == 11);
    assert("/api/keyframe"@.len() == 13);
    assert("/api/candidate"@.len() == 14);
    assert("/api/candidates"@.len() == 15);
    assert(address_of(a).0.len() == address_of(b).0.len());
}

/// The routes of the server, one for each endpoint.
pub fn build_router() -> (r: Vec<Route>)
    ensures
        r@.len() == endpoints().len(),
        forall|i: int|
            0 <= i < r@.len() ==> (#[trigger] r@[i]).endpoint == endpoints()[i] && (
            r@[i].path@,
            r@[i].method,
        ) == address_of(endpoints()[i]),
{
    vec![
        Route { path: "/", method: Method::Get, endpoint: Endpoint::Index },
        Route { path: "/api/auth", method: Method::Post, endpoint: Endpoint::Auth },
        Route { path: "/offer", method: Method::Post, endpoint: Endpoint::Offer },
        Route { path: "/api/targets", method: Method::Get, endpoint: Endpoint::Targets },
        Route { path: "/api/config", method: Method::Post, endpoint: Endpoint::Config },
        Route { path: "/api/keyframe", method: Method::Post, endpoint: Endpoint::Keyframe },
        Route { path: "/api/candidate", method: Method::Post, endpoint: Endpoint::Candidate },
        Route { path: "/api/candidates", method: Method::Get, endpoint: Endpoint::Candidates },
    ]
}

/// A server that nobody has reached yet has no sessions, no wrong passwords and
/// no connections, no stream, and holds what it was made with.
pub proof fn servers_begin_with_nobody(
    capture: Capture,
    stun_urls: Vec<String>,
    fps: u32,
    stats: StreamStats,
    password: String,
    audio_settings: AudioSettings,
    r: AppState,
    token: Seq<char>,
    ip: ClientIp,
    now: Duration,
)
    requires
        call_ensures(
            AppState::new,
            (capture, stun_urls, fps, stats, password, audio_settings),
            r,
        ),
    ensures
        !has_session(r, Some(token), now),
        r.failures_of(ip) == 0,
        !r.peer_connections.contents().contains_key(token),
        waiting(r.server_candidates.contents(), token).len() == 0,
        waiting(r.pending_client_candidates.contents(), token).len() == 0,
        !r.broadcaster.running && r.broadcaster.subscriber_count == 0,
        !r.shutdown,
        r.fps == fps && r.password@ == password@,
        r.capture == capture && r.stun_urls == stun_urls && r.audio_settings == audio_settings,
{
}

/// The frame rate that was set is the one that is wanted; nothing else changes.
pub proof fn set_rates_are_wanted(
    state: &&mut AppState,
    before: AppState,
    after: AppState,
    fps: u32,
    r: u32,
)
    requires
        call_ensures(AppState::set_fps, (*state, fps), ()),
        before == **state,
        after == *final(*state),
        call_ensures(AppState::get_fps, (&after,), r),
    ensures
        r == fps,
        after == (AppState { fps: after.fps, ..before }),
{
}

/// The page is served as it is, and browsers are not to keep it.
pub proof fn pages_are_served_as_they_are(html: String, r: Page)
    requires
        call_ensures(index, (html,), r),
    ensures
        r.body@ == html@,
        r.cache_control@ == "no-store"@,
{
}

/// A granted login begins a session under its token, from now on, and touches
/// no other; the address starts from nothing, and no other address is touched.
pub proof fn granted_logins_begin_sessions(
    state: &&mut AppState,
    before: AppState,
    after: AppState,
    ip: ClientIp,
    token: String,
    now: Duration,
    other: Seq<char>,
    elsewhere: ClientIp,
)
    requires
        call_ensures(grant_login, (*state, ip, &token, now), ()),
        before == **state,
        after == *final(*state),
    ensures
        has_session(after, Some(token@), now),
        after.sessions.contents()[token@] == now,
        other != token@ ==> has_session(after, Some(other), now) == has_session(
            before,
            Some(other),
            now,
        ),
        after.failures_of(ip) == 0,
        elsewhere != ip ==> after.failures_of(elsewhere) == before.failures_of(elsewhere),
        after == (AppState {
            sessions: after.sessions,
            auth_failures: after.auth_failures,
            ..before
        }),
{
}

/// An address of the viewer goes to the session's own connection, or waits
/// behind those that wait for it; no other session's addresses change.
pub proof fn addresses_go_to_their_own_session(
    state: &&mut AppState,
    before: AppState,
    after: AppState,
    token: String,
    candidate: IceCandidate,
    step: CandidateStep,
    other: Seq<char>,
)
    requires
        call_ensures(add_candidate, (*state, token, candidate), step),
        before == **state,
        after == *final(*state),
        other != token@,
    ensures
        before.peer_connections.contents().contains_key(token@) ==> (
        step matches CandidateStep::Deliver { token: t, candidate: c } && t@ == token@ && c
            == candidate) && after == before,
        !before.peer_connections.contents().contains_key(token@) ==> step is Queued && waiting(
            after.pending_client_candidates.contents(),
            token@,
        ) == waiting(before.pending_client_candidates.contents(), token@).push(candidate),
        waiting(after.pending_client_candidates.contents(), other) == waiting(
            before.pending_client_candidates.contents(),
            other,
        ),
{
    lemma_others_wait_as_before(before, after, token@, candidate, step, other);
}

/// The search for the server's addresses is over exactly when it says so.
pub proof fn searches_are_over_when_complete(
    handler: ConnHandler,
    state: GatheringState,
    r: bool,
)
    requires
        call_ensures(ConnHandler::on_ice_gathering_state_change, (&handler, state), r),
    ensures
        r <==> state is Complete,
{
}

/// Every endpoint has one route, and no two routes the same path.
pub proof fn routes_lead_to_every_endpoint(r: Vec<Route>, endpoint: Endpoint, i: int, j: int)
    requires
        call_ensures(build_router, (), r),
        0 <= i < j < r@.len(),
    ensures
        exists|k: int| 0 <= k < r@.len() && (#[trigger] r@[k]).endpoint == endpoint,
        r@[i].endpoint != r@[j].endpoint,
        r@[i].path@ != r@[j].path@,
{
    let n = match endpoint {
        Endpoint::Index => 0,
        Endpoint::Auth => 1,
        Endpoint::Offer => 2,
        Endpoint::Targets => 3,
        Endpoint::Config => 4,
        Endpoint::Keyframe => 5,
        Endpoint::Candidate => 6,
        Endpoint::Candidates => 7int,
    };
    assert(r@[n].endpoint == endpoints()[n]);
    assert(r@[i].endpoint == endpoints()[i]);
    assert(r@[j].endpoint == endpoints()[j]);
    if r@[i].path@ == r@[j].path@ {
        paths_tell_endpoints_apart(r@[i].endpoint, r@[j].endpoint);
    }
}

} // verus!
