//! Who may watch: passwords, session tokens and where requests come from.

use axum::http::{HeaderMap, HeaderValue};
use vstd::prelude::*;
use vstd::string::*;
use vstd::utf8::*;

use crate::table::TableKey;
use crate::text::{after_prefix, chars_of, string_of, strip_prefix};
use crate::trusted::{
    header_field, header_get, header_str, random_byte, visible_text,
};

verus! {

/// The answer to a request that is refused.
#[derive(Clone, Copy, Debug, PartialEq, Eq, Structural)]
pub enum StatusCode {
    BadRequest,
    Unauthorized,
    Forbidden,
    TooManyRequests,
    InternalServerError,
}

impl StatusCode {
    /// The number of a status.
    pub fn code(&self) -> (r: u16)
        ensures
            r == (match self {
                StatusCode::BadRequest => 400u16,
                StatusCode::Unauthorized => 401u16,
                StatusCode::Forbidden => 403u16,
                StatusCode::TooManyRequests => 429u16,
                StatusCode::InternalServerError => 500u16,
            }),
    {
        match self {
            StatusCode::BadRequest => 400,
            StatusCode::Unauthorized => 401,
            StatusCode::Forbidden => 403,
            StatusCode::TooManyRequests => 429,
            StatusCode::InternalServerError => 500,
        }
    }
}

/// Compares two texts of bytes; looks at every byte of texts of equal length,
/// so that the time it takes does not tell where they differ.
pub fn constant_time_eq(a: &[u8], b: &[u8]) -> (r: bool)
    ensures
        r == (a@ == b@),
{
    if a.len() != b.len() {
        return false;
    }
    let mut diff: u8 = 0;
    let mut i: usize = 0;
    while i < a.len()
        invariant
            i <= a@.len() == b@.len(),
            (diff == 0) == (forall|j: int| 0 <= j < i ==> a@[j] == b@[j]),
        decreases a@.len() - i,
    {
        let x: u8 = a[i];
        let y: u8 = b[i];
        let before: u8 = diff;
        diff = diff | (x ^ y);
        assert((diff == 0) == (before == 0 && x == y)) by (bit_vector)
            requires
                diff == before | (x ^ y),
        ;
        assert(x == a@[i as int] && y == b@[i as int]);
        i = i + 1;
    }
    assert(diff == 0 ==> a@ =~= b@);
    diff == 0
}

/// Tells whether two texts are the same, in a time that does not tell where
/// they differ.
pub fn same_password(a: &str, b: &str) -> (r: bool)
    ensures
        r == (a@ == b@),
{
    proof {
        encode_utf8_decode_utf8(a@);
        encode_utf8_decode_utf8(b@);
    }
    constant_time_eq(a.as_bytes(), b.as_bytes())
}

/// A lower-case hexadecimal digit.
pub open spec fn hex_digit(n: int) -> char {
    if n < 10 {
        (48 + n) as char
    } else {
        (87 + n) as char
    }
}

/// A byte in two hexadecimal digits.
pub open spec fn hex_byte(b: u8) -> Seq<char> {
    seq![hex_digit(b as int / 16), hex_digit(b as int % 16)]
}

/// Whether a hyphen stands before byte `i` of an identifier.
pub open spec fn hyphen_before(i: int) -> bool {
    i == 4 || i == 6 || i == 8 || i == 10
}

/// The first `n` bytes of an identifier in text.
pub open spec fn uuid_text(bytes: Seq<u8>, n: int) -> Seq<char>
    decreases n,
{
    if n <= 0 {
        Seq::empty()
    } else {
        uuid_text(bytes, n - 1) + (if hyphen_before(n - 1) {
            seq!['-']
        } else {
            Seq::empty()
        }) + hex_byte(bytes[n - 1])
    }
}

fn push_hex(s: &mut String, n: u8)
    requires
        n < 16,
    ensures
        final(s)@ == old(s)@.push(hex_digit(n as int)),
{
    if n < 10 {
        s.push((48 + n) as char);
    } else {
        s.push((87 + n) as char);
    }
}

/// Sixteen bytes as an identifier: hexadecimal digits in groups of eight, four,
/// four, four and twelve.
pub fn uuid_of(bytes: &[u8; 16]) -> (r: String)
    ensures
        r@ == uuid_text(bytes@, 16),
{
    let mut s: String = String::new();
    let mut i: usize = 0;
    while i < 16
        invariant
            i <= 16,
            s@ == uuid_text(bytes@, i as int),
        decreases 16 - i,
    {
        let ghost before = s@;
        if i == 4 || i == 6 || i == 8 || i == 10 {
            s.push('-');
        }
        let b: u8 = bytes[i];
        push_hex(&mut s, b / 16);
        push_hex(&mut s, b % 16);
        assert(s@ =~= uuid_text(bytes@, i + 1));
        i = i + 1;
    }
    s
}

/// An identifier by chance.
pub fn uuid_simple() -> (r: String)
    ensures
        exists|bytes: Seq<u8>| bytes.len() == 16 && r@ == #[trigger] uuid_text(bytes, 16),
{
    let mut bytes: [u8; 16] = [0, 0, 0, 0, 0, 0, 0, 0, 0, 0, 0, 0, 0, 0, 0, 0];
    let mut i: usize = 0;
    while i < 16
        invariant
            i <= 16,
        decreases 16 - i,
    {
        bytes[i] = random_byte();
        i = i + 1;
    }
    let ghost drawn = bytes@;
    let r: String = uuid_of(&bytes);
    assert(r@ == uuid_text(drawn, 16));
    r
}

proof fn lemma_hex_digit(a: int, b: int)
    requires
        0 <= a < 16,
        0 <= b < 16,
        hex_digit(a) == hex_digit(b),
    ensures
        a == b,
{
}

proof fn lemma_uuid_len(bytes: Seq<u8>, n: int)
    requires
        0 <= n <= 16,
    ensures
        uuid_text(bytes, n).len() == 2 * n + (if n > 10 {
            4int
        } else if n > 8 {
            3
        } else if n > 6 {
            2
        } else if n > 4 {
            1
        } else {
            0
        }),
    decreases n,
{
    if n > 0 {
        lemma_uuid_len(bytes, n - 1);
    }
}

/// An identifier has thirty-six characters, and identifiers of different bytes
/// differ.
pub proof fn uuids_tell_bytes_apart(a: Seq<u8>, b: Seq<u8>)
    requires
        a.len() == 16,
        b.len() == 16,
    ensures
        uuid_text(a, 16).len() == 36,
        uuid_text(a, 16) == uuid_text(b, 16) ==> a == b,
{
    lemma_uuid_len(a, 16);
    if uuid_text(a, 16) == uuid_text(b, 16) {
        lemma_uuid_prefix_apart(a, b, 16);
        assert(a =~= b);
    }
}

proof fn lemma_uuid_prefix_apart(a: Seq<u8>, b: Seq<u8>, n: int)
    requires
        a.len() == 16,
        b.len() == 16,
        0 <= n <= 16,
        uuid_text(a, n) == uuid_text(b, n),
    ensures
        forall|i: int| 0 <= i < n ==> a[i] == b[i],
    decreases n,
{
    if n > 0 {
        lemma_uuid_len(a, n - 1);
        lemma_uuid_len(b, n - 1);
        lemma_uuid_len(a, n);
        lemma_uuid_len(b, n);
        let m = uuid_text(a, n - 1).len() as int;
        let k = uuid_text(a, n).len() as int;
        let ta = uuid_text(a, n);
        let tb = uuid_text(b, n);
        assert(ta.take(m) =~= uuid_text(a, n - 1));
        assert(tb.take(m) =~= uuid_text(b, n - 1));
        lemma_uuid_prefix_apart(a, b, n - 1);
        assert(ta[k - 2] == hex_digit(a[n - 1] as int / 16));
        assert(tb[k - 2] == hex_digit(b[n - 1] as int / 16));
        assert(ta[k - 1] == hex_digit(a[n - 1] as int % 16));
        assert(tb[k - 1] == hex_digit(b[n - 1] as int % 16));
        lemma_hex_digit(a[n - 1] as int / 16, b[n - 1] as int / 16);
        lemma_hex_digit(a[n - 1] as int % 16, b[n - 1] as int % 16);
    }
}

/// Where a request comes from.
#[derive(Clone, Copy, Debug, PartialEq, Eq, Structural)]
pub enum ClientIp {
    V4(u32),
    V6(u128),
}

impl TableKey for ClientIp {
    type Id = ClientIp;

    open spec fn id(&self) -> ClientIp {
        *self
    }

    fn same(&self, other: &Self) -> (r: bool) {
        *self == *other
    }
}

/// The address of this machine for itself, 127.0.0.1.
pub const LOCALHOST: u32 = 0x7f00_0001;

/// The text of a header that has one.
pub open spec fn header_text(headers: HeaderMap<HeaderValue>, name: Seq<char>) -> Option<Seq<char>> {
    match header_field(headers, name) {
        Some(bytes) => visible_text(bytes),
        None => None,
    }
}

fn text_of_header<'a>(headers: &'a HeaderMap<HeaderValue>, name: &str) -> (r: Option<&'a str>)
    ensures
        (match r {
            Some(s) => Some(s@),
            None => None,
        }) == header_text(*headers, name@),
{
    match header_get(headers, name) {
        Some(value) => header_str(value),
        None => None,
    }
}

/// What stands before the first comma.
pub open spec fn before_comma(s: Seq<char>) -> Seq<char>
    decreases s.len(),
{
    if s.len() == 0 || s[0] == ',' {
        Seq::empty()
    } else {
        seq![s[0]] + before_comma(s.skip(1))
    }
}

/// Whether a character of a header is white space.
pub open spec fn is_blank(c: char) -> bool {
    c == ' ' || c == '\t'
}

/// A text without the white space at its beginning.
pub open spec fn trimmed_start(s: Seq<char>) -> Seq<char>
    decreases s.len(),
{
    if s.len() > 0 && is_blank(s[0]) {
        trimmed_start(s.skip(1))
    } else {
        s
    }
}

/// A text without the white space at its end.
pub open spec fn trimmed_end(s: Seq<char>) -> Seq<char>
    decreases s.len(),
{
    if s.len() > 0 && is_blank(s.last()) {
        trimmed_end(s.drop_last())
    } else {
        s
    }
}

proof fn lemma_before_comma(s: Seq<char>, n: int)
    requires
        0 <= n <= s.len(),
        forall|i: int| 0 <= i < n ==> s[i] != ',',
        n < s.len() ==> s[n] == ',',
    ensures
        before_comma(s) == s.take(n),
    decreases n,
{
    if n > 0 {
        let rest = s.skip(1);
        assert forall|i: int| 0 <= i < n - 1 implies rest[i] != ',' by {
            assert(rest[i] == s[i + 1]);
        }
        lemma_before_comma(rest, n - 1);
    }
    assert(before_comma(s) =~= s.take(n));
}

/// The first address of a list of addresses.
pub fn first_address(list: &str) -> (r: String)
    ensures
        r@ == trimmed_end(trimmed_start(before_comma(list@))),
{
    let chars: Vec<char> = chars_of(list);
    let mut n: usize = 0;
    while n < chars.len() && chars[n] != ','
        invariant
            n <= chars@.len(),
            forall|i: int| 0 <= i < n ==> chars@[i] != ',',
        decreases chars@.len() - n,
    {
        n = n + 1;
    }
    proof {
        lemma_before_comma(chars@, n as int);
    }
    let ghost part = chars@.take(n as int);
    let mut from: usize = 0;
    assert(part.skip(0) == part);
    while from < n && (chars[from] == ' ' || chars[from] == '\t')
        invariant
            from <= n <= chars@.len(),
            part == chars@.take(n as int),
            trimmed_start(part) == trimmed_start(part.skip(from as int)),
        decreases n - from,
    {
        assert(part.skip(from as int)[0] == chars@[from as int]);
        assert(part.skip(from as int).skip(1) == part.skip(from + 1));
        from = from + 1;
    }
    let ghost rest = part.skip(from as int);
    assert(trimmed_start(part) == rest) by {
        if from < n {
            assert(rest[0] == chars@[from as int]);
        }
    }
    let mut to: usize = n;
    assert(rest.take(rest.len() as int) == rest);
    while from < to && (chars[to - 1] == ' ' || chars[to - 1] == '\t')
        invariant
            from <= to <= n <= chars@.len(),
            part == chars@.take(n as int),
            rest == part.skip(from as int),
            trimmed_end(rest) == trimmed_end(rest.take(to - from)),
        decreases to,
    {
        let ghost t = rest.take(to - from);
        assert(t.last() == chars@[to - 1]);
        assert(t.drop_last() == rest.take(to - 1 - from));
        to = to - 1;
    }
    let ghost t = rest.take(to - from);
    assert(trimmed_end(t) == t) by {
        if from < to {
            assert(t.last() == chars@[to - 1]);
        }
    }
    let r: String = string_of(&chars, from, to);
    assert(r@ =~= t);
    r
}

/// The address that a request says it was forwarded for, if it says so.
pub fn extract_client_ip(headers: &HeaderMap<HeaderValue>) -> (r: Option<String>)
    ensures
        match header_text(*headers, "x-forwarded-for"@) {
            Some(list) => r matches Some(a) && a@ == trimmed_end(
                trimmed_start(before_comma(list)),
            ),
            None => r is None,
        },
{
    match text_of_header(headers, "x-forwarded-for") {
        Some(list) => Some(first_address(list)),
        None => None,
    }
}

/// The address that counts for a request: the one it was forwarded for, where
/// that can be read, and this machine's own otherwise.
pub fn client_ip(forwarded: Option<ClientIp>) -> (r: ClientIp)
    ensures
        r == (match forwarded {
            Some(ip) => ip,
            None => ClientIp::V4(LOCALHOST),
        }),
{
    match forwarded {
        Some(ip) => ip,
        None => ClientIp::V4(LOCALHOST),
    }
}

/// The token of an authorization header.
pub open spec fn bearer(header: Option<Seq<char>>) -> Option<Seq<char>> {
    match header {
        Some(text) => after_prefix(text, "Bearer "@),
        None => None,
    }
}

/// The token that a request shows.
pub open spec fn shown_token(headers: HeaderMap<HeaderValue>) -> Option<Seq<char>> {
    bearer(header_text(headers, "authorization"@))
}

/// The token of an authorization header.
pub fn bearer_token(header: Option<&str>) -> (r: Option<String>)
    ensures
        (match r {
            Some(t) => Some(t@),
            None => None,
        }) == bearer(
            match header {
                Some(h) => Some(h@),
                None => None,
            },
        ),
{
    match header {
        Some(h) => strip_prefix(h, "Bearer "),
        None => None,
    }
}

/// The token that a request shows.
pub fn token_of(headers: &HeaderMap<HeaderValue>) -> (r: Option<String>)
    ensures
        (match r {
            Some(t) => Some(t@),
            None => None,
        }) == shown_token(*headers),
{
    bearer_token(text_of_header(headers, "authorization"))
}

/// The token of a header is what stands behind the word `Bearer` and one space,
/// letter for letter; a header without them shows none.
pub proof fn tokens_follow_the_word_bearer(text: Seq<char>, token: Seq<char>)
    ensures
        bearer(Some(text)) == Some(token) <==> text == "Bearer "@ + token,
        bearer(None) is None,
{
    let word = "Bearer "@;
    if text == word + token {
        assert(text.take(word.len() as int) =~= word);
        assert(text.skip(word.len() as int) =~= token);
    }
    if bearer(Some(text)) == Some(token) {
        assert(text =~= word + token);
    }
}

/// A request shows the token of its header `authorization`, and no other.
pub proof fn requests_show_the_token_of_their_header(
    headers: HeaderMap<HeaderValue>,
    r: Option<String>,
    token: Seq<char>,
)
    requires
        call_ensures(token_of, (&headers,), r),
    ensures
        (r matches Some(t) && t@ == token) <==> header_text(headers, "authorization"@) == Some(
            "Bearer "@ + token,
        ),
{
    if let Some(text) = header_text(headers, "authorization"@) {
        tokens_follow_the_word_bearer(text, token);
    }
}

/// The number that a hexadecimal digit stands for.
pub open spec fn hex_value(c: char) -> int {
    if '0' <= c <= '9' {
        c as int - '0' as int
    } else {
        c as int - 'a' as int + 10
    }
}

/// Where the digits of a byte stand in an identifier.
pub open spec fn digits_at(i: int) -> int {
    2 * i + (if i >= 10 {
        4int
    } else if i >= 8 {
        3
    } else if i >= 6 {
        2
    } else if i >= 4 {
        1
    } else {
        0
    })
}

proof fn lemma_digits_stand(bytes: Seq<u8>, n: int, i: int)
    requires
        0 <= i < n <= 16,
        bytes.len() == 16,
    ensures
        digits_at(i) + 1 < uuid_text(bytes, n).len(),
        uuid_text(bytes, n)[digits_at(i)] == hex_digit(bytes[i] as int / 16),
        uuid_text(bytes, n)[digits_at(i) + 1] == hex_digit(bytes[i] as int % 16),
        i == 4 || i == 6 || i == 8 || i == 10 ==> uuid_text(bytes, n)[digits_at(i) - 1] == '-',
    decreases n,
{
    lemma_uuid_len(bytes, n - 1);
    lemma_uuid_len(bytes, n);
    if i < n - 1 {
        lemma_digits_stand(bytes, n - 1, i);
    }
}

/// An identifier reads back as its bytes: each stands as two lower-case
/// hexadecimal digits, the bytes in order, with hyphens between the groups and
/// nothing else.
pub proof fn identifiers_read_back(bytes: &[u8; 16], r: String, i: int)
    requires
        call_ensures(uuid_of, (bytes,), r),
        0 <= i < 16,
    ensures
        r@.len() == 36,
        r@[8] == '-' && r@[13] == '-' && r@[18] == '-' && r@[23] == '-',
        ({
            let high = r@[digits_at(i)];
            let low = r@[digits_at(i) + 1];
            &&& '0' <= high <= '9' || 'a' <= high <= 'f'
            &&& '0' <= low <= '9' || 'a' <= low <= 'f'
            &&& hex_value(high) * 16 + hex_value(low) == bytes@[i]
        }),
{
    lemma_uuid_len(bytes@, 16);
    lemma_digits_stand(bytes@, 16, i);
    lemma_digits_stand(bytes@, 16, 4);
    lemma_digits_stand(bytes@, 16, 6);
    lemma_digits_stand(bytes@, 16, 8);
    lemma_digits_stand(bytes@, 16, 10);
}

/// Whether a text is made of blanks.
pub open spec fn all_blank(s: Seq<char>) -> bool {
    forall|i: int| 0 <= i < s.len() ==> #[trigger] s[i] == ' ' || s[i] == '\t'
}

proof fn lemma_trim_start(a: Seq<char>, s: Seq<char>)
    requires
        all_blank(a),
        s.len() == 0 || s[0] != ' ' && s[0] != '\t',
    ensures
        trimmed_start(a + s) == s,
    decreases a.len(),
{
    if a.len() > 0 {
        assert((a + s)[0] == a[0]);
        assert((a + s).skip(1) =~= a.skip(1) + s);
        assert forall|i: int| 0 <= i < a.skip(1).len() implies #[trigger] a.skip(1)[i] == ' '
            || a.skip(1)[i] == '\t' by {
            assert(a.skip(1)[i] == a[i + 1]);
        }
        lemma_trim_start(a.skip(1), s);
    } else {
        assert(a + s =~= s);
    }
}

proof fn lemma_trim_end(s: Seq<char>, b: Seq<char>)
    requires
        all_blank(b),
        s.len() == 0 || s.last() != ' ' && s.last() != '\t',
    ensures
        trimmed_end(s + b) == s,
    decreases b.len(),
{
    if b.len() > 0 {
        assert((s + b).last() == b.last());
        assert((s + b).drop_last() =~= s + b.drop_last());
        lemma_trim_end(s, b.drop_last());
    } else {
        assert(s + b =~= s);
    }
}

/// The first address of a list is what stands before its first comma, without
/// the blanks around it; what stands behind the comma is no matter.
pub proof fn first_addresses_stand_before_the_comma(
    list: &str,
    r: String,
    left: Seq<char>,
    address: Seq<char>,
    right: Seq<char>,
    rest: Seq<char>,
)
    requires
        call_ensures(first_address, (list,), r),
        list@ == left + address + right + rest,
        all_blank(left),
        all_blank(right),
        address.len() > 0,
        !is_blank(address.first()) && !is_blank(address.last()),
        forall|i: int| 0 <= i < address.len() ==> #[trigger] address[i] != ',',
        rest.len() == 0 || rest[0] == ',',
    ensures
        r@ == address,
{
    let n = (left + address + right).len() as int;
    assert forall|i: int| 0 <= i < n implies list@[i] != ',' by {
        if i < left.len() {
            assert(list@[i] == left[i]);
        } else if i < left.len() + address.len() {
            assert(list@[i] == address[i - left.len()]);
        } else {
            assert(list@[i] == right[i - left.len() - address.len()]);
        }
    }
    lemma_before_comma(list@, n);
    assert(list@.take(n) =~= left + (address + right));
    assert((address + right)[0] == address[0]);
    lemma_trim_start(left, address + right);
    lemma_trim_end(address, right);
}

/// A request counts for the address that it was forwarded for, whichever that
/// is, and for this machine's own only where there is none.
pub proof fn forwarded_addresses_count(forwarded: Option<ClientIp>, r: ClientIp)
    requires
        call_ensures(client_ip, (forwarded,), r),
    ensures
        forwarded is Some ==> forwarded == Some(r),
        forwarded is None ==> r == ClientIp::V4(0x7f00_0001),
{
}

} // verus!
