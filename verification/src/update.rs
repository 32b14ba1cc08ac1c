//! Whether there is a newer release, and how it takes the place of this one.

use serde_json::Value;
use vstd::prelude::*;
use vstd::string::*;

use crate::text::{
    chars_of, decimal, decimal_reads_back, is_digit, joined, push_decimal, same_text, string_of,
};
use crate::trusted::{
    json_array, json_get, json_items, json_member, json_of, json_parse, json_str, json_text,
    suffix_at_most, version_at_most, version_parse,
};

verus! {

/// The name of the program's file.
pub const EXE_NAME: &'static str = "ffscreencast.exe";

/// Where the newest release is described.
pub const RELEASE_URL: &'static str =
    "https://api.github.com/repos/affonsoamendola/ffscreencast/releases/latest";

/// Who asks for it.
pub const USER_AGENT: &'static str = "ffscreencast-updater";

/// The version of this program.
pub fn current_version() -> (r: &'static str)
    ensures
        r@ == "0.1.0"@,
{
    "0.1.0"
}

/// A version: three numbers, and what follows a hyphen and a plus sign.
pub type VersionView = (u64, u64, u64, Seq<char>, Seq<char>);

/// A version of the program.
#[derive(Debug)]
pub struct ReleaseVersion {
    pub major: u64,
    pub minor: u64,
    pub patch: u64,
    pub pre: String,
    pub build: String,
}

/// Whether a character may stand in an identifier.
pub open spec fn is_identifier_char(c: char) -> bool {
    is_digit(c) || 'a' <= c <= 'z' || 'A' <= c <= 'Z' || c == '-'
}

/// Whether a text is made of identifiers with dots between them.
pub open spec fn is_identifiers(s: Seq<char>) -> bool {
    &&& s.len() > 0
    &&& forall|i: int| 0 <= i < s.len() ==> is_identifier_char(#[trigger] s[i]) || s[i] == '.'
    &&& s[0] != '.'
    &&& s.last() != '.'
    &&& forall|i: int, j: int|
        0 <= i && j == i + 1 && j < s.len() ==> !(#[trigger] s[i] == '.' && #[trigger] s[j] == '.')
}

/// Whether characters `i` up to `j` are one number with more than one digit.
pub open spec fn is_long_number(s: Seq<char>, i: int, j: int) -> bool {
    &&& 0 <= i && i + 1 < j <= s.len()
    &&& i == 0 || s[i - 1] == '.'
    &&& j == s.len() || s[j] == '.'
    &&& forall|k: int| i <= k < j ==> is_digit(#[trigger] s[k])
}

/// Whether a text can stand behind the hyphen of a version; empty where there
/// is none. Its numbers have no zeros in front.
pub open spec fn is_prerelease(s: Seq<char>) -> bool {
    s.len() > 0 ==> is_identifiers(s) && forall|i: int, j: int| #[trigger]
        is_long_number(s, i, j) ==> s[i] != '0'
}

/// Whether a text can stand behind the plus sign of a version; empty where
/// there is none.
pub open spec fn is_build_metadata(s: Seq<char>) -> bool {
    s.len() > 0 ==> is_identifiers(s)
}

/// What stands behind the numbers of a version.
pub open spec fn version_tail(v: VersionView) -> Seq<char> {
    (if v.3.len() > 0 {
        seq!['-'] + v.3
    } else {
        Seq::empty()
    }) + (if v.4.len() > 0 {
        seq!['+'] + v.4
    } else {
        Seq::empty()
    })
}

/// The text of a version.
pub open spec fn version_text(v: VersionView) -> Seq<char> {
    decimal(v.0 as nat) + seq!['.'] + decimal(v.1 as nat) + seq!['.'] + decimal(v.2 as nat)
        + version_tail(v)
}

/// Whether a version is one.
pub open spec fn is_version(v: VersionView) -> bool {
    is_prerelease(v.3) && is_build_metadata(v.4)
}

/// Whether a text is that of a version.
pub open spec fn is_version_text(s: Seq<char>) -> bool {
    exists|v: VersionView| is_version(v) && #[trigger] version_text(v) == s
}

/// Whether the numbers of a version come before those of another.
pub open spec fn smaller_numbers(a: VersionView, b: VersionView) -> bool {
    a.0 < b.0 || (a.0 == b.0 && (a.1 < b.1 || (a.1 == b.1 && a.2 < b.2)))
}

/// Whether two versions have the same numbers.
pub open spec fn same_numbers(a: VersionView, b: VersionView) -> bool {
    a.0 == b.0 && a.1 == b.1 && a.2 == b.2
}

/// Whether a version is not newer than another. One with a pre-release comes
/// before the one without, and one with a build after the one without.
pub open spec fn at_most(a: VersionView, b: VersionView) -> bool {
    smaller_numbers(a, b) || (same_numbers(a, b) && if b.3.len() == 0 && b.4.len() == 0 {
        a.3.len() > 0 || a.4.len() == 0
    } else {
        suffix_at_most(a.3, a.4, b.3, b.4)
    })
}

impl ReleaseVersion {
    /// The version in plain values.
    pub open spec fn view(&self) -> VersionView {
        (self.major, self.minor, self.patch, self.pre@, self.build@)
    }

    /// Whether the version is one.
    pub open spec fn wf(&self) -> bool {
        is_version(self.view())
    }
}

proof fn lemma_parts(
    p: Seq<char>,
    r: Seq<char>,
    q: Seq<char>,
    t: Seq<char>,
    inside: spec_fn(char) -> bool,
)
    requires
        p + r == q + t,
        forall|i: int| 0 <= i < p.len() ==> inside(#[trigger] p[i]),
        forall|i: int| 0 <= i < q.len() ==> inside(#[trigger] q[i]),
        r.len() > 0 ==> !inside(r[0]),
        t.len() > 0 ==> !inside(t[0]),
    ensures
        p == q,
        r == t,
{
    let s = p + r;
    let u = q + t;
    if p.len() < q.len() {
        assert(s.len() == p.len() + r.len() && u.len() == q.len() + t.len());
        assert(r.len() > 0);
        assert(s[p.len() as int] == r[0]);
        assert(u[p.len() as int] == q[p.len() as int]);
    } else if q.len() < p.len() {
        assert(s.len() == p.len() + r.len() && u.len() == q.len() + t.len());
        assert(t.len() > 0);
        assert(u[q.len() as int] == t[0]);
        assert(s[q.len() as int] == p[q.len() as int]);
    }
    assert(s.take(p.len() as int) =~= p);
    assert(u.take(q.len() as int) =~= q);
    assert(s.skip(p.len() as int) =~= r);
    assert(u.skip(q.len() as int) =~= t);
}

proof fn lemma_number_parts(n: u64, r: Seq<char>, m: u64, t: Seq<char>)
    requires
        decimal(n as nat) + r == decimal(m as nat) + t,
        r.len() > 0 ==> !is_digit(r[0]),
        t.len() > 0 ==> !is_digit(t[0]),
    ensures
        n == m,
        r == t,
{
    decimal_reads_back(n as nat, u64::MAX as nat);
    decimal_reads_back(m as nat, u64::MAX as nat);
    lemma_parts(decimal(n as nat), r, decimal(m as nat), t, |c: char| is_digit(c));
}

proof fn lemma_version_text(v: VersionView)
    ensures
        version_text(v) == decimal(v.0 as nat) + (seq!['.'] + (decimal(v.1 as nat) + (seq!['.'] + (
        decimal(v.2 as nat) + version_tail(v))))),
{
    let whole = decimal(v.0 as nat) + (seq!['.'] + (decimal(v.1 as nat) + (seq!['.'] + (decimal(
        v.2 as nat,
    ) + version_tail(v)))));
    assert(version_text(v) =~= whole);
}

proof fn lemma_tails(a: VersionView, b: VersionView)
    requires
        is_version(a),
        is_version(b),
        version_tail(a) == version_tail(b),
    ensures
        a.3 == b.3,
        a.4 == b.4,
{
    let plain = |c: char| is_identifier_char(c) || c == '.';
    let pa = if a.3.len() > 0 {
        seq!['-'] + a.3
    } else {
        Seq::<char>::empty()
    };
    let pb = if b.3.len() > 0 {
        seq!['-'] + b.3
    } else {
        Seq::<char>::empty()
    };
    let ba = if a.4.len() > 0 {
        seq!['+'] + a.4
    } else {
        Seq::<char>::empty()
    };
    let bb = if b.4.len() > 0 {
        seq!['+'] + b.4
    } else {
        Seq::<char>::empty()
    };
    assert forall|i: int| 0 <= i < pa.len() implies plain(#[trigger] pa[i]) by {
        if i > 0 {
            assert(pa[i] == a.3[i - 1]);
        }
    }
    assert forall|i: int| 0 <= i < pb.len() implies plain(#[trigger] pb[i]) by {
        if i > 0 {
            assert(pb[i] == b.3[i - 1]);
        }
    }
    lemma_parts(pa, ba, pb, bb, plain);
    assert(a.3 =~= b.3) by {
        if a.3.len() > 0 {
            assert(pa.skip(1) =~= a.3);
        }
        if b.3.len() > 0 {
            assert(pb.skip(1) =~= b.3);
        }
    }
    assert(a.4 =~= b.4) by {
        if a.4.len() > 0 {
            assert(ba.skip(1) =~= a.4);
        }
        if b.4.len() > 0 {
            assert(bb.skip(1) =~= b.4);
        }
    }
}

/// Versions with the same text are the same.
pub proof fn texts_tell_versions_apart(a: VersionView, b: VersionView)
    requires
        is_version(a),
        is_version(b),
        version_text(a) == version_text(b),
    ensures
        a == b,
{
    lemma_version_text(a);
    lemma_version_text(b);
    let ra2 = version_tail(a);
    let rb2 = version_tail(b);
    let ra1 = decimal(a.2 as nat) + ra2;
    let rb1 = decimal(b.2 as nat) + rb2;
    let ra0 = decimal(a.1 as nat) + (seq!['.'] + ra1);
    let rb0 = decimal(b.1 as nat) + (seq!['.'] + rb1);
    lemma_number_parts(a.0, seq!['.'] + ra0, b.0, seq!['.'] + rb0);
    assert((seq!['.'] + ra0).skip(1) =~= ra0);
    assert((seq!['.'] + rb0).skip(1) =~= rb0);
    lemma_number_parts(a.1, seq!['.'] + ra1, b.1, seq!['.'] + rb1);
    assert((seq!['.'] + ra1).skip(1) =~= ra1);
    assert((seq!['.'] + rb1).skip(1) =~= rb1);
    lemma_number_parts(a.2, ra2, b.2, rb2);
    lemma_tails(a, b);
}

/// The version of this program is one.
pub proof fn current_version_is_one()
    ensures
        is_version_text("0.1.0"@),
        version_text((0, 1, 0, Seq::empty(), Seq::empty())) == "0.1.0"@,
{
    reveal_strlit("0.1.0");
    let v: VersionView = (0, 1, 0, Seq::empty(), Seq::empty());
    assert(is_version(v));
    assert(decimal(0) =~= seq!['0']);
    assert(decimal(1) =~= seq!['1']);
    assert(version_text(v) =~= "0.1.0"@);
}

/// A file of a release.
#[derive(Debug)]
pub struct Asset {
    pub name: Option<String>,
    pub url: Option<String>,
}

/// What is known of the newest release.
#[derive(Debug)]
pub struct ReleaseInfo {
    pub tag: Option<String>,
    pub assets: Option<Vec<Asset>>,
}

/// A release that is newer than this program.
#[derive(Debug)]
pub struct Release {
    pub exe_url: String,
}

/// Why there is no update.
#[derive(Debug)]
pub enum UpdateError {
    NoClient,
    NotSent,
    Status(String),
    BadBody,
    MissingTag,
    MissingAssets,
    ExeNotFound,
    BadCurrent,
    BadTag(String),
    NotStarted,
    DownloadStatus(String),
    NoTempFile,
    NotWritten,
}

impl UpdateError {
    /// What is said of the error.
    pub open spec fn text(self) -> Seq<char> {
        match self {
            UpdateError::NoClient => "failed to build HTTP client"@,
            UpdateError::NotSent => "failed to check for updates"@,
            UpdateError::Status(status) => "GitHub API returned "@ + status@,
            UpdateError::BadBody => "failed to parse release info"@,
            UpdateError::MissingTag => "missing tag_name in release"@,
            UpdateError::MissingAssets => "missing assets"@,
            UpdateError::ExeNotFound => "ffscreencast.exe not found in release assets"@,
            UpdateError::BadCurrent => "failed to parse current version"@,
            UpdateError::BadTag(tag) => "failed to parse version from tag '"@ + (tag@ + "'"@),
            UpdateError::NotStarted => "failed to start download"@,
            UpdateError::DownloadStatus(status) => "download failed: HTTP "@ + status@,
            UpdateError::NoTempFile => "failed to create temp file"@,
            UpdateError::NotWritten => "failed to write download"@,
        }
    }

    /// What is said of the error.
    pub fn message(&self) -> (r: String)
        ensures
            r@ == self.text(),
    {
        match self {
            UpdateError::NoClient => "failed to build HTTP client".to_owned(),
            UpdateError::NotSent => "failed to check for updates".to_owned(),
            UpdateError::Status(status) => joined("GitHub API returned ", status.as_str()),
            UpdateError::BadBody => "failed to parse release info".to_owned(),
            UpdateError::MissingTag => "missing tag_name in release".to_owned(),
            UpdateError::MissingAssets => "missing assets".to_owned(),
            UpdateError::ExeNotFound => "ffscreencast.exe not found in release assets".to_owned(),
            UpdateError::BadCurrent => "failed to parse current version".to_owned(),
            UpdateError::BadTag(tag) => {
                let quoted: String = joined(tag.as_str(), "'");
                joined("failed to parse version from tag '", quoted.as_str())
            },
            UpdateError::NotStarted => "failed to start download".to_owned(),
            UpdateError::DownloadStatus(status) => joined(
                "download failed: HTTP ",
                status.as_str(),
            ),
            UpdateError::NoTempFile => "failed to create temp file".to_owned(),
            UpdateError::NotWritten => "failed to write download".to_owned(),
        }
    }
}

/// A text that may be missing.
pub open spec fn optional_text(t: Option<String>) -> Option<Seq<char>> {
    match t {
        Some(s) => Some(s@),
        None => None,
    }
}

fn member_text(value: &Value, key: &str) -> (r: Option<String>)
    ensures
        optional_text(r) == json_text(json_member(*value, key@)),
{
    match json_str(json_get(value, key)) {
        Some(s) => Some(s.to_owned()),
        None => None,
    }
}

/// Whether a file of a release is described by a JSON value.
pub open spec fn reads_asset(a: Asset, value: Value) -> bool {
    &&& optional_text(a.name) == json_text(json_member(value, "name"@))
    &&& optional_text(a.url) == json_text(json_member(value, "browser_download_url"@))
}

/// Whether a release is described by a JSON value.
pub open spec fn reads_release(info: ReleaseInfo, value: Value) -> bool {
    &&& optional_text(info.tag) == json_text(json_member(value, "tag_name"@))
    &&& match json_items(json_member(value, "assets"@)) {
        None => info.assets is None,
        Some(items) => {
            &&& info.assets matches Some(assets)
            &&& assets@.len() == items.len()
            &&& forall|i: int| 0 <= i < items.len() ==> reads_asset(#[trigger] assets@[i], items[i])
        },
    }
}

/// What a JSON value says of a release.
pub fn read_release(value: &Value) -> (r: ReleaseInfo)
    ensures
        reads_release(r, *value),
{
    let tag: Option<String> = member_text(value, "tag_name");
    let assets: Option<Vec<Asset>> = match json_array(json_get(value, "assets")) {
        Some(items) => {
            let mut assets: Vec<Asset> = Vec::new();
            let mut i: usize = 0;
            while i < items.len()
                invariant
                    i <= items@.len(),
                    assets@.len() == i,
                    forall|j: int| 0 <= j < i ==> reads_asset(#[trigger] assets@[j], items@[j]),
                decreases items@.len() - i,
            {
                let item: &Value = &items[i];
                assets.push(
                    Asset {
                        name: member_text(item, "name"),
                        url: member_text(item, "browser_download_url"),
                    },
                );
                i = i + 1;
            }
            Some(assets)
        },
        None => None,
    };
    ReleaseInfo { tag, assets }
}

/// Whether a file is the program.
pub open spec fn is_exe(a: Asset) -> bool {
    optional_text(a.name) == Some(EXE_NAME@)
}

/// Where the program of a release is: at the address of the first file that has
/// its name.
pub open spec fn exe_url(assets: Seq<Asset>) -> Option<Seq<char>>
    decreases assets.len(),
{
    if assets.len() == 0 {
        None
    } else if is_exe(assets[0]) {
        optional_text(assets[0].url)
    } else {
        exe_url(assets.skip(1))
    }
}

fn find_exe(assets: &Vec<Asset>) -> (r: Option<String>)
    ensures
        optional_text(r) == exe_url(assets@),
{
    let mut i: usize = 0;
    assert(assets@.skip(0) =~= assets@);
    while i < assets.len()
        invariant
            i <= assets@.len(),
            exe_url(assets@) == exe_url(assets@.skip(i as int)),
        decreases assets@.len() - i,
    {
        let ghost rest = assets@.skip(i as int);
        assert(rest[0] == assets@[i as int]);
        assert(rest.skip(1) =~= assets@.skip(i + 1));
        match &assets[i].name {
            Some(name) => {
                if same_text(name.as_str(), EXE_NAME) {
                    return match &assets[i].url {
                        Some(url) => Some(url.clone()),
                        None => None,
                    };
                }
            },
            None => {},
        }
        i = i + 1;
    }
    None
}

/// A tag without the letters `v` in front.
pub open spec fn bare_tag(tag: Seq<char>) -> Seq<char>
    decreases tag.len(),
{
    if tag.len() > 0 && tag[0] == 'v' {
        bare_tag(tag.skip(1))
    } else {
        tag
    }
}

fn strip_v(tag: &String) -> (r: String)
    ensures
        r@ == bare_tag(tag@),
{
    let chars: Vec<char> = chars_of(tag.as_str());
    let mut i: usize = 0;
    assert(chars@.skip(0) =~= chars@);
    while i < chars.len() && chars[i] == 'v'
        invariant
            i <= chars@.len(),
            bare_tag(chars@) == bare_tag(chars@.skip(i as int)),
        decreases chars@.len() - i,
    {
        assert(chars@.skip(i as int).skip(1) =~= chars@.skip(i + 1));
        i = i + 1;
    }
    let r: String = string_of(&chars, i, chars.len());
    assert(r@ =~= chars@.skip(i as int));
    r
}

/// Whether an answer follows from the versions: a release that is not newer is
/// none, any other is offered.
pub open spec fn offers(
    latest: Seq<char>,
    current: Seq<char>,
    url: Seq<char>,
    r: Result<Option<Release>, UpdateError>,
) -> bool {
    exists|a: VersionView, b: VersionView|
        #![trigger version_text(a), version_text(b)]
        is_version(a) && version_text(a) == latest && is_version(b) && version_text(b) == current
            && if at_most(a, b) {
            r == Ok::<Option<Release>, UpdateError>(None)
        } else {
            r matches Ok(Some(release)) && release.exe_url@ == url
        }
}

/// Whether an answer follows from what is known of the newest release.
pub open spec fn decides(
    info: ReleaseInfo,
    current: Seq<char>,
    r: Result<Option<Release>, UpdateError>,
) -> bool {
    match info.tag {
        None => r == Err::<Option<Release>, UpdateError>(UpdateError::MissingTag),
        Some(tag) => match info.assets {
            None => r == Err::<Option<Release>, UpdateError>(UpdateError::MissingAssets),
            Some(assets) => match exe_url(assets@) {
                None => r == Err::<Option<Release>, UpdateError>(UpdateError::ExeNotFound),
                Some(url) => if !is_version_text(current) {
                    r == Err::<Option<Release>, UpdateError>(UpdateError::BadCurrent)
                } else if !is_version_text(bare_tag(tag@)) {
                    r == Err::<Option<Release>, UpdateError>(UpdateError::BadTag(tag))
                } else {
                    offers(bare_tag(tag@), current, url, r)
                },
            },
        },
    }
}

/// Decides whether a release is newer than version `current`.
pub fn choose_release(info: ReleaseInfo, current: &str) -> (r: Result<Option<Release>, UpdateError>)
    ensures
        decides(info, current@, r),
{
    let tag: String = match info.tag {
        Some(tag) => tag,
        None => {
            return Err(UpdateError::MissingTag);
        },
    };
    let assets: Vec<Asset> = match info.assets {
        Some(assets) => assets,
        None => {
            return Err(UpdateError::MissingAssets);
        },
    };
    let exe_url: String = match find_exe(&assets) {
        Some(url) => url,
        None => {
            return Err(UpdateError::ExeNotFound);
        },
    };
    let current: ReleaseVersion = match version_parse(current) {
        Some(v) => v,
        None => {
            return Err(UpdateError::BadCurrent);
        },
    };
    assert(is_version_text(version_text(current.view())));
    let bare: String = strip_v(&tag);
    let latest: ReleaseVersion = match version_parse(bare.as_str()) {
        Some(v) => v,
        None => {
            return Err(UpdateError::BadTag(tag));
        },
    };
    assert(is_version_text(version_text(latest.view())));
    if version_at_most(&latest, &current) {
        Ok(None)
    } else {
        Ok(Some(Release { exe_url }))
    }
}

proof fn lemma_bare_tag(v: VersionView, tag: Seq<char>)
    requires
        tag == version_text(v) || tag == seq!['v'] + version_text(v),
    ensures
        bare_tag(tag) == version_text(v),
{
    let text = version_text(v);
    decimal_reads_back(v.0 as nat, u64::MAX as nat);
    assert(text[0] == decimal(v.0 as nat)[0]);
    assert(is_digit(text[0]));
    if tag == seq!['v'] + text {
        assert(tag.skip(1) =~= text);
        reveal_with_fuel(bare_tag, 2);
    }
}

/// A release whose tag is a version, with a `v` in front or without, is offered
/// where that version is newer, and not where it is not.
pub proof fn releases_are_offered_if_newer(
    info: ReleaseInfo,
    latest: VersionView,
    current: VersionView,
    r: Result<Option<Release>, UpdateError>,
)
    requires
        decides(info, version_text(current), r),
        is_version(latest),
        is_version(current),
        info.tag matches Some(tag) && (tag@ == version_text(latest) || tag@ == seq!['v']
            + version_text(latest)),
        info.assets matches Some(assets) && exe_url(assets@) is Some,
    ensures
        r is Ok,
        r->Ok_0 is Some <==> !at_most(latest, current),
{
    lemma_bare_tag(latest, info.tag->Some_0@);
    assert(is_version_text(version_text(latest)));
    assert(is_version_text(version_text(current)));
    let url = exe_url(info.assets->Some_0@)->Some_0;
    assert(offers(version_text(latest), version_text(current), url, r));
    let (a, b) = choose|a: VersionView, b: VersionView|
        #![trigger version_text(a), version_text(b)]
        is_version(a) && version_text(a) == version_text(latest) && is_version(b) && version_text(b)
            == version_text(current) && if at_most(a, b) {
            r == Ok::<Option<Release>, UpdateError>(None)
        } else {
            r matches Ok(Some(release)) && release.exe_url@ == url
        };
    texts_tell_versions_apart(a, latest);
    texts_tell_versions_apart(b, current);
}

/// A version without a pre-release and a build is not newer than itself.
pub proof fn own_version_is_not_newer(v: VersionView)
    requires
        v.3.len() == 0,
        v.4.len() == 0,
    ensures
        at_most(v, v),
{
}

/// How the question for the newest release went.
#[derive(Debug)]
pub enum HttpOutcome {
    NoClient,
    NotSent,
    /// The number and the words of the status, and the body where it came.
    Answered { status: u16, reason: String, body: Option<Vec<u8>> },
}

/// Whether a status is one of success.
pub open spec fn is_success(status: u16) -> bool {
    200 <= status < 300
}

/// Decides whether the answer to the question for the newest release shows one
/// that is newer than this program.
pub fn check_github(outcome: HttpOutcome) -> (r: Result<Option<Release>, UpdateError>)
    ensures
        match outcome {
            HttpOutcome::NoClient => r == Err::<Option<Release>, UpdateError>(
                UpdateError::NoClient,
            ),
            HttpOutcome::NotSent => r == Err::<Option<Release>, UpdateError>(UpdateError::NotSent),
            HttpOutcome::Answered { status, reason, body } => if !is_success(status) {
                r == Err::<Option<Release>, UpdateError>(UpdateError::Status(reason))
            } else {
                match body {
                    None => r == Err::<Option<Release>, UpdateError>(UpdateError::BadBody),
                    Some(body) => match json_of(body@) {
                        None => r == Err::<Option<Release>, UpdateError>(UpdateError::BadBody),
                        Some(value) => exists|info: ReleaseInfo| #[trigger]
                            reads_release(info, value) && decides(info, "0.1.0"@, r),
                    },
                }
            },
        },
{
    match outcome {
        HttpOutcome::NoClient => Err(UpdateError::NoClient),
        HttpOutcome::NotSent => Err(UpdateError::NotSent),
        HttpOutcome::Answered { status, reason, body } => {
            if !(200 <= status && status < 300) {
                return Err(UpdateError::Status(reason));
            }
            let body: Vec<u8> = match body {
                Some(body) => body,
                None => {
                    return Err(UpdateError::BadBody);
                },
            };
            match json_parse(body.as_slice()) {
                Some(value) => {
                    let info: ReleaseInfo = read_release(&value);
                    let ghost known = info;
                    let r: Result<Option<Release>, UpdateError> = choose_release(
                        info,
                        current_version(),
                    );
                    assert(reads_release(known, value) && decides(known, "0.1.0"@, r));
                    r
                },
                None => Err(UpdateError::BadBody),
            }
        },
    }
}

/// How far a download has come.
#[derive(Debug)]
pub enum DownloadEvent {
    NoClient,
    NotStarted,
    /// An answer came: the number and the words of its status.
    Started { status: u16, reason: String },
    FileCreated(bool),
    Copied(bool),
}

/// What has to be done next for a download.
#[derive(Debug)]
pub enum DownloadStep {
    CreateFile,
    Copy,
    Done,
    Fail(UpdateError),
}

/// Goes on with a download.
pub fn download_file(event: DownloadEvent) -> (step: DownloadStep)
    ensures
        step == (match event {
            DownloadEvent::NoClient => DownloadStep::Fail(UpdateError::NoClient),
            DownloadEvent::NotStarted => DownloadStep::Fail(UpdateError::NotStarted),
            DownloadEvent::Started { status, reason } => if is_success(status) {
                DownloadStep::CreateFile
            } else {
                DownloadStep::Fail(UpdateError::DownloadStatus(reason))
            },
            DownloadEvent::FileCreated(true) => DownloadStep::Copy,
            DownloadEvent::FileCreated(false) => DownloadStep::Fail(UpdateError::NoTempFile),
            DownloadEvent::Copied(true) => DownloadStep::Done,
            DownloadEvent::Copied(false) => DownloadStep::Fail(UpdateError::NotWritten),
        }),
{
    match event {
        DownloadEvent::NoClient => DownloadStep::Fail(UpdateError::NoClient),
        DownloadEvent::NotStarted => DownloadStep::Fail(UpdateError::NotStarted),
        DownloadEvent::Started { status, reason } => {
            if 200 <= status && status < 300 {
                DownloadStep::CreateFile
            } else {
                DownloadStep::Fail(UpdateError::DownloadStatus(reason))
            }
        },
        DownloadEvent::FileCreated(created) => {
            if created {
                DownloadStep::Copy
            } else {
                DownloadStep::Fail(UpdateError::NoTempFile)
            }
        },
        DownloadEvent::Copied(copied) => {
            if copied {
                DownloadStep::Done
            } else {
                DownloadStep::Fail(UpdateError::NotWritten)
            }
        },
    }
}

/// How far an update has come.
#[derive(Debug)]
pub enum UpdateEvent {
    Checked(Result<Option<Release>, UpdateError>),
    Downloaded(Result<(), UpdateError>),
}

/// What has to be done next for an update.
#[derive(Debug)]
pub enum UpdateStep {
    /// Fetch the file at the address.
    Download { url: String },
    /// Let the new file take the place of this one.
    Restart,
    /// There is nothing newer.
    UpToDate,
    /// The newest release could not be found out.
    CheckFailed(UpdateError),
    /// The newest release could not be fetched.
    DownloadFailed(UpdateError),
}

/// Goes on with an update.
pub fn check_and_update(event: UpdateEvent) -> (step: UpdateStep)
    ensures
        step == (match event {
            UpdateEvent::Checked(Ok(Some(release))) => UpdateStep::Download {
                url: release.exe_url,
            },
            UpdateEvent::Checked(Ok(None)) => UpdateStep::UpToDate,
            UpdateEvent::Checked(Err(e)) => UpdateStep::CheckFailed(e),
            UpdateEvent::Downloaded(Ok(_)) => UpdateStep::Restart,
            UpdateEvent::Downloaded(Err(e)) => UpdateStep::DownloadFailed(e),
        }),
{
    match event {
        UpdateEvent::Checked(Ok(Some(release))) => UpdateStep::Download { url: release.exe_url },
        UpdateEvent::Checked(Ok(None)) => UpdateStep::UpToDate,
        UpdateEvent::Checked(Err(e)) => UpdateStep::CheckFailed(e),
        UpdateEvent::Downloaded(Ok(_)) => UpdateStep::Restart,
        UpdateEvent::Downloaded(Err(e)) => UpdateStep::DownloadFailed(e),
    }
}

/// The commands that wait until the process `pid` has ended and let the file
/// `new` take the place of the file `current`.
pub open spec fn script_text(pid: u32, current: Seq<char>, new: Seq<char>) -> Seq<char> {
    let backup = current + ".old"@;
    "while (Get-Process -Id "@ + decimal(pid as nat)
        + " -ErrorAction SilentlyContinue) { Start-Sleep -Milliseconds 500 }; Remove-Item '"@
        + backup + "' -Force -ErrorAction SilentlyContinue; Move-Item '"@ + new + "' '"@ + current
        + "' -Force; Remove-Item '"@ + backup
        + "' -Force -ErrorAction SilentlyContinue; Start-Process '"@ + current + "';"@
}

/// The commands that wait until the process `pid` has ended and let the file
/// `new` take the place of the file `current`.
pub fn updater_script(pid: u32, current: &str, new: &str) -> (r: String)
    ensures
        r@ == script_text(pid, current@, new@),
{
    let backup: String = joined(current, ".old");
    let mut s: String = "while (Get-Process -Id ".to_owned();
    push_decimal(&mut s, pid as u64);
    s.append(" -ErrorAction SilentlyContinue) { Start-Sleep -Milliseconds 500 }; Remove-Item '");
    s.append(backup.as_str());
    s.append("' -Force -ErrorAction SilentlyContinue; Move-Item '");
    s.append(new);
    s.append("' '");
    s.append(current);
    s.append("' -Force; Remove-Item '");
    s.append(backup.as_str());
    s.append("' -Force -ErrorAction SilentlyContinue; Start-Process '");
    s.append(current);
    s.append("';");
    s
}

/// Three numbers with dots between them.
pub open spec fn dotted(a: u64, b: u64, c: u64) -> Seq<char> {
    decimal(a as nat) + seq!['.'] + decimal(b as nat) + seq!['.'] + decimal(c as nat)
}

/// Whether file `i` is the first of a release that is named as the program, and
/// is at an address.
pub open spec fn is_program_at(assets: Seq<Asset>, i: int, url: Seq<char>) -> bool {
    &&& 0 <= i < assets.len()
    &&& assets[i].name matches Some(name)
    &&& name@ == "ffscreencast.exe"@
    &&& assets[i].url matches Some(u)
    &&& u@ == url
    &&& forall|j: int|
        0 <= j < i ==> !((#[trigger] assets[j]).name matches Some(name) && name@
            == "ffscreencast.exe"@)
}

proof fn lemma_program_is_found(assets: Seq<Asset>, i: int, url: Seq<char>)
    requires
        is_program_at(assets, i, url),
    ensures
        exe_url(assets) == Some(url),
    decreases i,
{
    if i > 0 {
        assert(!is_exe(assets[0])) by {
            assert(!(assets[0].name matches Some(name) && name@ == "ffscreencast.exe"@));
        }
        let rest = assets.skip(1);
        assert forall|j: int| 0 <= j < i - 1 implies !((#[trigger] rest[j]).name matches Some(name)
            && name@ == "ffscreencast.exe"@) by {
            assert(rest[j] == assets[j + 1]);
        }
        assert(rest[i - 1] == assets[i]);
        lemma_program_is_found(rest, i - 1, url);
    }
}

/// A release is offered exactly if its numbers are newer than those of the
/// program, the first of them that differ being larger, with or without a letter
/// in front of its tag; and then at the address of the first of its files that
/// is named as the program.
pub proof fn newer_numbers_are_offered(
    info: ReleaseInfo,
    current: &str,
    r: Result<Option<Release>, UpdateError>,
    a: (u64, u64, u64),
    b: (u64, u64, u64),
    i: int,
    url: Seq<char>,
)
    requires
        call_ensures(choose_release, (info, current), r),
        info.tag matches Some(tag) && (tag@ == dotted(a.0, a.1, a.2) || tag@ == seq!['v'] + dotted(
            a.0,
            a.1,
            a.2,
        )),
        current@ == dotted(b.0, b.1, b.2),
        info.assets matches Some(assets) && is_program_at(assets@, i, url),
    ensures
        ({
            let newer = a.0 > b.0 || a.0 == b.0 && a.1 > b.1 || a.0 == b.0 && a.1 == b.1 && a.2
                > b.2;
            if newer {
                r matches Ok(Some(release)) && release.exe_url@ == url
            } else {
                r matches Ok(None)
            }
        }),
{
    let latest: VersionView = (a.0, a.1, a.2, Seq::empty(), Seq::empty());
    let own: VersionView = (b.0, b.1, b.2, Seq::empty(), Seq::empty());
    assert(version_text(latest) =~= dotted(a.0, a.1, a.2));
    assert(version_text(own) =~= dotted(b.0, b.1, b.2));
    lemma_program_is_found(info.assets->Some_0@, i, url);
    releases_are_offered_if_newer(info, latest, own, r);
    lemma_bare_tag(latest, info.tag->Some_0@);
    assert(is_version_text(version_text(latest)));
    assert(is_version_text(version_text(own)));
}

/// What a release lacks is told: its tag, its files, or the program among them.
pub proof fn missing_parts_are_told(
    info: ReleaseInfo,
    current: &str,
    r: Result<Option<Release>, UpdateError>,
)
    requires
        call_ensures(choose_release, (info, current), r),
    ensures
        info.tag is None ==> (r matches Err(UpdateError::MissingTag)),
        info.tag is Some && info.assets is None ==> (r matches Err(UpdateError::MissingAssets)),
        info.tag is Some && (info.assets matches Some(assets) && forall|j: int|
            0 <= j < assets@.len() ==> !((#[trigger] assets@[j]).name matches Some(name) && name@
                == "ffscreencast.exe"@)) ==> (r matches Err(UpdateError::ExeNotFound)),
        r matches Ok(Some(release)) ==> (info.assets matches Some(assets) && exists|j: int|
            0 <= j < assets@.len() && ((#[trigger] assets@[j]).name matches Some(name) && name@
                == "ffscreencast.exe"@) && (assets@[j].url matches Some(u) && u@
                == release.exe_url@)),
{
    if info.assets is Some {
        let assets = info.assets->Some_0@;
        lemma_program_is_one_of_the_files(assets);
    }
}

proof fn lemma_program_is_one_of_the_files(assets: Seq<Asset>)
    ensures
        exe_url(assets) matches Some(url) ==> exists|j: int|
            0 <= j < assets.len() && ((#[trigger] assets[j]).name matches Some(name) && name@
                == "ffscreencast.exe"@) && (assets[j].url matches Some(u) && u@ == url),
    decreases assets.len(),
{
    if assets.len() > 0 {
        if is_exe(assets[0]) {
            if let Some(name) = assets[0].name {
                assert(name@ == "ffscreencast.exe"@);
            }
        } else {
            let rest = assets.skip(1);
            lemma_program_is_one_of_the_files(rest);
            if let Some(url) = exe_url(assets) {
                let j = choose|j: int|
                    0 <= j < rest.len() && ((#[trigger] rest[j]).name matches Some(name) && name@
                        == "ffscreencast.exe"@) && (rest[j].url matches Some(u) && u@ == url);
                assert(rest[j] == assets[j + 1]);
            }
        }
    }
}

/// An answer counts only with a status from two hundred to below three hundred;
/// any other is told with its words.
pub proof fn answers_count_with_success(
    status: u16,
    reason: String,
    body: Option<Vec<u8>>,
    r: Result<Option<Release>, UpdateError>,
    step: DownloadStep,
)
    requires
        call_ensures(check_github, (HttpOutcome::Answered { status, reason, body },), r),
        call_ensures(download_file, (DownloadEvent::Started { status, reason },), step),
    ensures
        !(200 <= status < 300) ==> r == Err::<Option<Release>, UpdateError>(
            UpdateError::Status(reason),
        ) && step == DownloadStep::Fail(UpdateError::DownloadStatus(reason)),
        200 <= status < 300 ==> step is CreateFile && (body is None ==> r == Err::<
            Option<Release>,
            UpdateError,
        >(UpdateError::BadBody)),
{
}

/// A download goes on from the answer to the file and from the file to its
/// contents, and ends with what failed.
pub proof fn downloads_end_with_what_failed(event: DownloadEvent, step: DownloadStep)
    requires
        call_ensures(download_file, (event,), step),
    ensures
        step is Done <==> event == DownloadEvent::Copied(true),
        step is Copy <==> event == DownloadEvent::FileCreated(true),
        event == DownloadEvent::FileCreated(false) ==> step == DownloadStep::Fail(
            UpdateError::NoTempFile,
        ),
        event == DownloadEvent::Copied(false) ==> step == DownloadStep::Fail(
            UpdateError::NotWritten,
        ),
        event is NoClient ==> step == DownloadStep::Fail(UpdateError::NoClient),
        event is NotStarted ==> step == DownloadStep::Fail(UpdateError::NotStarted),
{
}

/// A newer release is fetched from its own address, and the program is started
/// anew exactly when it was fetched; failures are told as they are.
pub proof fn newer_releases_are_fetched(event: UpdateEvent, step: UpdateStep)
    requires
        call_ensures(check_and_update, (event,), step),
    ensures
        event matches UpdateEvent::Checked(Ok(Some(release))) ==> (
        step matches UpdateStep::Download { url } && url@ == release.exe_url@),
        step is Download ==> (event matches UpdateEvent::Checked(Ok(Some(_)))),
        step is Restart <==> (event matches UpdateEvent::Downloaded(Ok(_))),
        step is UpToDate <==> (event matches UpdateEvent::Checked(Ok(None))),
        event matches UpdateEvent::Checked(Err(e)) ==> step == UpdateStep::CheckFailed(e),
        event matches UpdateEvent::Downloaded(Err(e)) ==> step == UpdateStep::DownloadFailed(e),
{
}

/// Whether a text stands within another.
pub open spec fn stands_in(part: Seq<char>, s: Seq<char>) -> bool {
    exists|k: int|
        0 <= k <= s.len() - part.len() && #[trigger] s.subrange(k, k + part.len()) == part
}

/// The script waits for this process, then moves the new file to the place of
/// the old one, and starts that at the end.
pub proof fn scripts_move_the_new_file(pid: u32, current: &str, new: &str, r: String)
    requires
        call_ensures(updater_script, (pid, current, new), r),
    ensures
        ({
            let head = "while (Get-Process -Id "@ + decimal(pid as nat);
            r@.take(head.len() as int) == head
        }),
        stands_in("Move-Item '"@ + new@ + "' '"@ + current@ + "' -Force"@, r@),
        ({
            let end = "Start-Process '"@ + current@ + "';"@;
            r@.len() >= end.len() && r@.skip(r@.len() - end.len()) == end
        }),
{
    let backup = current@ + ".old"@;
    let head = "while (Get-Process -Id "@ + decimal(pid as nat);
    let wait =
        " -ErrorAction SilentlyContinue) { Start-Sleep -Milliseconds 500 }; Remove-Item '"@;
    let then_move = "' -Force -ErrorAction SilentlyContinue; Move-Item '"@;
    let then_remove = "' -Force; Remove-Item '"@;
    let then_start = "' -Force -ErrorAction SilentlyContinue; Start-Process '"@;
    reveal_strlit("' -Force -ErrorAction SilentlyContinue; Move-Item '");
    reveal_strlit("Move-Item '");
    reveal_strlit("' -Force; Remove-Item '");
    reveal_strlit("' -Force");
    reveal_strlit("' -Force -ErrorAction SilentlyContinue; Start-Process '");
    reveal_strlit("Start-Process '");
    assert(r@.take(head.len() as int) =~= head);
    let front = head + wait + backup;
    let part = "Move-Item '"@ + new@ + "' '"@ + current@ + "' -Force"@;
    let k = front.len() + then_move.len() - "Move-Item '"@.len();
    let n = "Move-Item '"@.len() as int;
    assert(then_move.skip(then_move.len() - n) =~= "Move-Item '"@);
    assert(then_remove.take("' -Force"@.len() as int) =~= "' -Force"@);
    assert(r@ =~= (front + then_move) + (new@ + "' '"@ + current@) + then_remove + (backup
        + then_start + current@ + "';"@));
    assert(r@.subrange(k, k + part.len()) =~= part);
    let end = "Start-Process '"@ + current@ + "';"@;
    assert(then_start.skip(then_start.len() - "Start-Process '"@.len()) =~= "Start-Process '"@);
    assert(r@.skip(r@.len() - end.len()) =~= end);
}

/// A failure is told with what it is about: the words of a status or the tag.
pub proof fn failures_are_told_with_their_words(e: UpdateError, r: String)
    requires
        call_ensures(UpdateError::message, (&e,), r),
    ensures
        e matches UpdateError::Status(words) ==> r@ == "GitHub API returned "@ + words@,
        e matches UpdateError::DownloadStatus(words) ==> r@ == "download failed: HTTP "@ + words@,
        e matches UpdateError::BadTag(tag) ==> r@ == "failed to parse version from tag '"@ + tag@
            + "'"@,
{
    if let UpdateError::BadTag(tag) = e {
        assert(r@ =~= "failed to parse version from tag '"@ + tag@ + "'"@);
    }
}

/// The version of this program is looked at before the tag of the release: where
/// the first is none, that is told, whatever the tag holds. Only then the tag is
/// told, as it is.
pub proof fn the_own_version_is_looked_at_first(
    info: ReleaseInfo,
    current: &str,
    r: Result<Option<Release>, UpdateError>,
)
    requires
        call_ensures(choose_release, (info, current), r),
        info.tag is Some,
        info.assets is Some,
        r !is Ok,
        !(r matches Err(UpdateError::ExeNotFound)),
    ensures
        r matches Err(UpdateError::BadCurrent) <==> !is_version_text(current@),
        is_version_text(current@) ==> (r matches Err(UpdateError::BadTag(tag)) && info.tag == Some(
            tag,
        )),
{
}

/// What is told of each failure, without words of others.
pub proof fn failures_have_their_own_words(e: UpdateError, r: String)
    requires
        call_ensures(UpdateError::message, (&e,), r),
    ensures
        e is NoClient ==> r@ == "failed to build HTTP client"@,
        e is NotSent ==> r@ == "failed to check for updates"@,
        e is BadBody ==> r@ == "failed to parse release info"@,
        e is MissingTag ==> r@ == "missing tag_name in release"@,
        e is MissingAssets ==> r@ == "missing assets"@,
        e is ExeNotFound ==> r@ == "ffscreencast.exe not found in release assets"@,
        e is BadCurrent ==> r@ == "failed to parse current version"@,
        e is NotStarted ==> r@ == "failed to start download"@,
        e is NoTempFile ==> r@ == "failed to create temp file"@,
        e is NotWritten ==> r@ == "failed to write download"@,
{
}

} // verus!
