//! What the library takes on trust from the standard library and from other
//! crates. Each item states what its documentation or source shows.

use std::time::Duration;

use axum::http::{HeaderMap, HeaderValue};
use bytes::Bytes;
use rtc::interceptor::Registry;
use rtc::peer_connection::configuration::interceptor_registry::register_default_interceptors;
use rtc::peer_connection::configuration::media_engine::MediaEngine;
use rtc::peer_connection::sdp::RTCSessionDescription;
use rtc::rtp_transceiver::rtp_sender::{RTCRtpCodec, RTCRtpCodecParameters, RtpCodecKind};
use semver::{BuildMetadata, Prerelease, Version};
use serde_json::Value;
use vstd::prelude::*;

use crate::offer::{Codec, MediaKind};
use crate::update::{
    is_version_text, same_numbers, smaller_numbers, version_text, ReleaseVersion,
};

verus! {

/// `String::push` appends one character.
pub assume_specification[ String::push ](s: &mut String, c: char)
    ensures
        final(s)@ == old(s)@.push(c),
;

/// The code points that are characters: everything up to `0x10ffff` but the
/// surrogates.
pub open spec fn is_code_point(i: int) -> bool {
    0 <= i <= 0xd7ff || 0xe000 <= i <= 0x10ffff
}

/// `char::from_u32` gives the character of a code point, and nothing for any
/// other number.
pub assume_specification[ char::from_u32 ](i: u32) -> (r: Option<char>)
    ensures
        r == (if is_code_point(i as int) {
            Some(i as char)
        } else {
            None
        }),
;

/// `bytes::Bytes`, a buffer of bytes, of which only `buffer_bytes` is known.
#[verifier::external_type_specification]
#[verifier::external_body]
pub struct ExBytes(Bytes);

/// The bytes that a `Bytes` buffer holds.
pub uninterp spec fn buffer_bytes(buffer: Bytes) -> Seq<u8>;

/// `<Bytes as From<Vec<u8>>>::from` takes over the bytes of a vector as they
/// are.
#[verifier::external_body]
pub(crate) fn buffer_from(data: Vec<u8>) -> (r: Bytes)
    ensures
        buffer_bytes(r) == data@,
{
    Bytes::from(data)
}

/// `<Bytes as AsRef<[u8]>>::as_ref` shows all the bytes of a buffer.
#[verifier::external_body]
pub(crate) fn buffer_slice(buffer: &Bytes) -> (r: &[u8])
    ensures
        r@ == buffer_bytes(*buffer),
{
    buffer.as_ref()
}

/// A stretch of time in nanoseconds.
pub uninterp spec fn nanos(d: Duration) -> nat;

/// `Duration::as_nanos` gives the whole stretch in nanoseconds.
pub assume_specification[ Duration::as_nanos ](d: &Duration) -> (r: u128)
    ensures
        r == nanos(*d),
;

/// `Duration::as_micros` counts whole microseconds.
pub assume_specification[ Duration::as_micros ](d: &Duration) -> (r: u128)
    ensures
        r == nanos(*d) / 1000,
;

/// `Duration::as_secs` counts whole seconds.
pub assume_specification[ Duration::as_secs ](d: &Duration) -> (r: u64)
    ensures
        r == nanos(*d) / 1_000_000_000,
;

/// `Duration::from_millis` makes a stretch of that many milliseconds.
pub assume_specification[ Duration::from_millis ](millis: u64) -> (r: Duration)
    ensures
        nanos(r) == millis * 1_000_000,
;

/// `Duration::saturating_sub` takes one stretch from another, down to zero.
pub assume_specification[ Duration::saturating_sub ](d: Duration, rhs: Duration) -> (r: Duration)
    ensures
        nanos(r) == (if nanos(d) >= nanos(rhs) {
            nanos(d) - nanos(rhs)
        } else {
            0
        }),
;

/// The longest stretch that can be kept: `u64::MAX` seconds and a second less a
/// nanosecond.
pub open spec fn longest_nanos() -> nat {
    (u64::MAX * 1_000_000_000 + 999_999_999) as nat
}

/// `Duration::checked_add` adds two stretches, unless the sum is too long to be
/// kept.
pub assume_specification[ Duration::checked_add ](d: Duration, rhs: Duration) -> (r: Option<Duration>)
    ensures
        match r {
            Some(sum) => nanos(sum) == nanos(d) + nanos(rhs),
            None => nanos(d) + nanos(rhs) > longest_nanos(),
        },
;

/// `http::HeaderMap`, the headers of a request, of which only `header_field` is
/// known.
#[verifier::external_type_specification]
#[verifier::external_body]
#[verifier::reject_recursive_types(T)]
pub struct ExHeaderMap<T>(HeaderMap<T>);

/// `http::HeaderValue`, the value of a header, of which only `header_bytes` is
/// known.
#[verifier::external_type_specification]
#[verifier::external_body]
pub struct ExHeaderValue(HeaderValue);

/// The bytes of the first value that a request has under a header name.
pub uninterp spec fn header_field(
    headers: HeaderMap<HeaderValue>,
    name: Seq<char>,
) -> Option<Seq<u8>>;

/// The bytes of a header value.
pub uninterp spec fn header_bytes(value: HeaderValue) -> Seq<u8>;

/// `HeaderMap::get` gives the first value under a name, and nothing where there
/// is none or the name is not a header name.
#[verifier::external_body]
pub(crate) fn header_get<'a>(headers: &'a HeaderMap<HeaderValue>, name: &str) -> (r: Option<
    &'a HeaderValue,
>)
    ensures
        match r {
            Some(value) => header_field(*headers, name@) == Some(header_bytes(*value)),
            None => header_field(*headers, name@) is None,
        },
{
    headers.get(name)
}

/// Whether a byte can be shown: printable ASCII or a tab.
pub open spec fn is_visible(b: u8) -> bool {
    32 <= b < 127 || b == 9
}

/// The text that bytes spell, where all of them can be shown.
pub open spec fn visible_text(bytes: Seq<u8>) -> Option<Seq<char>> {
    if forall|i: int| 0 <= i < bytes.len() ==> is_visible(#[trigger] bytes[i]) {
        Some(bytes.map_values(|b: u8| b as char))
    } else {
        None
    }
}

/// `HeaderValue::to_str` gives the text of a value all of whose bytes are
/// printable ASCII or tabs, and nothing for any other.
#[verifier::external_body]
pub(crate) fn header_str(value: &HeaderValue) -> (r: Option<&str>)
    ensures
        (match r {
            Some(s) => Some(s@),
            None => None,
        }) == visible_text(header_bytes(*value)),
{
    value.to_str().ok()
}

/// `rand::random` gives a byte by chance; nothing is said of which.
#[verifier::external_body]
pub(crate) fn random_byte() -> (r: u8) {
    rand::random::<u8>()
}

/// `rtc`'s `MediaEngine`, of which only `engine_codecs` and `engine_extensions`
/// are known.
#[verifier::external_type_specification]
#[verifier::external_body]
pub struct ExMediaEngine(MediaEngine);

/// `rtc`'s `Registry` of interceptors, of which nothing is known: it is only
/// handed on.
#[verifier::external_type_specification]
#[verifier::external_body]
pub struct ExRegistry(Registry);

/// `rtc`'s `RTCSessionDescription`, of which only `session_sdp` is known.
#[verifier::external_type_specification]
#[verifier::external_body]
pub struct ExRTCSessionDescription(RTCSessionDescription);

/// The codecs for pictures, or else those for sound, that a media engine has
/// registered, in order: MIME type, clock rate, channels, format parameters and
/// payload type.
pub uninterp spec fn engine_codecs(engine: MediaEngine, video: bool) -> Seq<
    (Seq<char>, u32, u16, Seq<char>, u8),
>;

/// The header extensions that a media engine has registered.
pub uninterp spec fn engine_extensions(engine: MediaEngine) -> Set<Seq<char>>;

/// `MediaEngine::default` has registered nothing.
#[verifier::external_body]
pub(crate) fn engine_new() -> (r: MediaEngine)
    ensures
        forall|video: bool| (#[trigger] engine_codecs(r, video)).len() == 0,
        engine_extensions(r) == Set::<Seq<char>>::empty(),
{
    MediaEngine::default()
}

/// Codecs with one more behind them, unless one has its MIME type and payload
/// type.
pub open spec fn with_codec(
    codecs: Seq<(Seq<char>, u32, u16, Seq<char>, u8)>,
    codec: (Seq<char>, u32, u16, Seq<char>, u8),
) -> Seq<(Seq<char>, u32, u16, Seq<char>, u8)> {
    if exists|i: int|
        0 <= i < codecs.len() && (#[trigger] codecs[i]).0 == codec.0 && codecs[i].4 == codec.4 {
        codecs
    } else {
        codecs.push(codec)
    }
}

/// `MediaEngine::register_codec` puts an audio or video codec behind those of
/// its kind, unless one of them has its MIME type and payload type. It does not
/// fail for these kinds.
#[verifier::external_body]
pub(crate) fn engine_register(engine: &mut MediaEngine, codec: &Codec, kind: MediaKind) -> (r:
    Result<(), String>)
    ensures
        r is Ok,
        engine_extensions(*final(engine)) == engine_extensions(*old(engine)),
        engine_codecs(*final(engine), kind != MediaKind::Video) == engine_codecs(
            *old(engine),
            kind != MediaKind::Video,
        ),
        engine_codecs(*final(engine), kind == MediaKind::Video) == with_codec(
            engine_codecs(*old(engine), kind == MediaKind::Video),
            codec.view(),
        ),
{
    let rtp_codec = RTCRtpCodec {
        mime_type: codec.mime_type.to_string(),
        clock_rate: codec.clock_rate,
        channels: codec.channels,
        sdp_fmtp_line: codec.sdp_fmtp_line.to_string(),
        rtcp_feedback: vec![],
    };
    let codec = RTCRtpCodecParameters { rtp_codec, payload_type: codec.payload_type };
    match kind {
        MediaKind::Video => engine.register_codec(codec, RtpCodecKind::Video),
        MediaKind::Audio => engine.register_codec(codec, RtpCodecKind::Audio),
    }.map_err(|e| e.to_string())
}

/// The header extensions that tell streams and packets apart.
pub open spec fn default_extensions() -> Set<Seq<char>> {
    set![
        "urn:ietf:params:rtp-hdrext:sdes:mid"@,
        "urn:ietf:params:rtp-hdrext:sdes:rtp-stream-id"@,
        "urn:ietf:params:rtp-hdrext:sdes:repaired-rtp-stream-id"@,
        "http://www.ietf.org/id/draft-holmer-rmcat-transport-wide-cc-extensions-01"@,
    ]
}

/// `register_default_interceptors`, for an empty registry, leaves the codecs of
/// a media engine as they are, but for the feedback that they carry, and does
/// not fail where the engine has no header extensions: it then registers four.
/// What the registry holds is not stated: it is only handed on.
#[verifier::external_body]
pub(crate) fn engine_interceptors(engine: &mut MediaEngine) -> (r: Result<Registry, String>)
    ensures
        engine_extensions(*old(engine)) == Set::<Seq<char>>::empty() ==> r is Ok,
        engine_extensions(*old(engine)) == Set::<Seq<char>>::empty() ==> engine_extensions(
            *final(engine),
        ) == default_extensions(),
        forall|video: bool| #[trigger]
            engine_codecs(*final(engine), video) == engine_codecs(*old(engine), video),
{
    register_default_interceptors(Registry::new(), engine).map_err(|e| e.to_string())
}

/// What is wrong with the text of an offer, if anything is.
pub uninterp spec fn offer_fault(sdp: Seq<char>) -> Option<Seq<char>>;

/// The text of a session description.
pub uninterp spec fn session_sdp(description: RTCSessionDescription) -> Seq<char>;

/// `RTCSessionDescription::offer` reads the text of an offer, and keeps it as it
/// is where it can be read.
#[verifier::external_body]
pub(crate) fn session_offer(sdp: String) -> (r: Result<RTCSessionDescription, String>)
    ensures
        match r {
            Ok(description) => offer_fault(sdp@) is None && session_sdp(description) == sdp@,
            Err(fault) => offer_fault(sdp@) == Some(fault@),
        },
{
    RTCSessionDescription::offer(sdp).map_err(|e| e.to_string())
}

/// `serde_json::Value`, of which only `json_member`, `json_text` and
/// `json_items` are known.
#[verifier::external_type_specification]
#[verifier::external_body]
pub struct ExValue(Value);

/// The value that a JSON text in bytes stands for.
pub uninterp spec fn json_of(body: Seq<u8>) -> Option<Value>;

/// What a JSON object has under a key; null where it has nothing, or is no
/// object.
pub uninterp spec fn json_member(value: Value, key: Seq<char>) -> Value;

/// The text of a JSON string.
pub uninterp spec fn json_text(value: Value) -> Option<Seq<char>>;

/// The elements of a JSON array.
pub uninterp spec fn json_items(value: Value) -> Option<Seq<Value>>;

/// `serde_json::from_slice` reads a JSON text.
#[verifier::external_body]
pub(crate) fn json_parse(body: &[u8]) -> (r: Option<Value>)
    ensures
        r == json_of(body@),
{
    serde_json::from_slice(body).ok()
}

/// `<Value as Index<&str>>::index` gives the member of an object under a key.
#[verifier::external_body]
pub(crate) fn json_get<'a>(value: &'a Value, key: &str) -> (r: &'a Value)
    ensures
        *r == json_member(*value, key@),
{
    &value[key]
}

/// `Value::as_str` gives the text of a string, and nothing for other values.
#[verifier::external_body]
pub(crate) fn json_str(value: &Value) -> (r: Option<&str>)
    ensures
        (match r {
            Some(s) => Some(s@),
            None => None,
        }) == json_text(*value),
{
    value.as_str()
}

/// `Value::as_array` gives the elements of an array, and nothing for other
/// values.
#[verifier::external_body]
pub(crate) fn json_array(value: &Value) -> (r: Option<&Vec<Value>>)
    ensures
        (match r {
            Some(items) => Some(items@),
            None => None,
        }) == json_items(*value),
{
    value.as_array()
}

/// `Version::parse` reads a version, and succeeds on every text of a version.
#[verifier::external_body]
pub(crate) fn version_parse(text: &str) -> (r: Option<ReleaseVersion>)
    ensures
        match r {
            Some(v) => v.wf() && version_text(v.view()) == text@,
            None => !is_version_text(text@),
        },
{
    let v = Version::parse(text).ok()?;
    let pre = v.pre.as_str().to_string();
    let build = v.build.as_str().to_string();
    Some(ReleaseVersion { major: v.major, minor: v.minor, patch: v.patch, pre, build })
}

/// Whether a version with the first pre-release and build texts is at most one
/// that has the same numbers and the second.
pub uninterp spec fn suffix_at_most(
    pre: Seq<char>,
    build: Seq<char>,
    other_pre: Seq<char>,
    other_build: Seq<char>,
) -> bool;

/// `<Version as PartialOrd>::le` goes by the three numbers first, and by the
/// pre-release and the build where they are the same. A version with a
/// pre-release comes before the one without, and one with a build after the one
/// without.
#[verifier::external_body]
pub(crate) fn version_at_most(a: &ReleaseVersion, b: &ReleaseVersion) -> (r: bool)
    requires
        a.wf(),
        b.wf(),
    ensures
        r == (smaller_numbers(a.view(), b.view()) || (same_numbers(a.view(), b.view()) && if b.pre@.len()
            == 0 && b.build@.len() == 0 {
            a.pre@.len() > 0 || a.build@.len() == 0
        } else {
            suffix_at_most(a.pre@, a.build@, b.pre@, b.build@)
        })),
{
    let parts = |v: &ReleaseVersion| Version {
        major: v.major,
        minor: v.minor,
        patch: v.patch,
        pre: Prerelease::new(&v.pre).unwrap(),
        build: BuildMetadata::new(&v.build).unwrap(),
    };
    parts(a) <= parts(b)
}

} // verus!
