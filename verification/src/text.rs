//! Text as sequences of characters: copying, comparing, numbers in decimal.

use vstd::prelude::*;
use vstd::string::*;
use vstd::utf8::*;

verus! {

/// The characters of a text, one by one.
pub fn chars_of(s: &str) -> (r: Vec<char>)
    ensures
        r@ == s@,
{
    let mut out: Vec<char> = Vec::new();
    for c in it: s.chars()
        invariant
            it.seq() == s@,
            out@ == it.seq().take(it.index()),
    {
        out.push(c);
    }
    assert(s@.take(s@.len() as int) == s@);
    out
}

/// The text made of characters `from` up to `to`.
pub fn string_of(chars: &Vec<char>, from: usize, to: usize) -> (r: String)
    requires
        from <= to <= chars@.len(),
    ensures
        r@ == chars@.subrange(from as int, to as int),
{
    let mut out = String::new();
    let mut i: usize = from;
    while i < to
        invariant
            from <= i <= to <= chars@.len(),
            out@ == chars@.subrange(from as int, i as int),
        decreases to - i,
    {
        out.push(chars[i]);
        i = i + 1;
    }
    out
}

/// Whether two texts hold the same characters.
pub fn same_text(a: &str, b: &str) -> (r: bool)
    ensures
        r == (a@ == b@),
{
    let left: String = a.to_owned();
    let right: String = b.to_owned();
    left == right
}

/// One text after another.
pub fn joined(what: &str, why: &str) -> (r: String)
    ensures
        r@ == what@ + why@,
{
    let mut s: String = what.to_owned();
    s.append(why);
    s
}

/// The digit character for a number below ten.
pub open spec fn digit_char(d: nat) -> char {
    (48 + d) as char
}

/// A number written in base ten, without leading zeros.
pub open spec fn decimal(n: nat) -> Seq<char>
    decreases n,
{
    if n < 10 {
        seq![digit_char(n)]
    } else {
        decimal(n / 10).push(digit_char(n % 10))
    }
}

/// Appends a number in base ten.
pub fn push_decimal(s: &mut String, n: u64)
    ensures
        final(s)@ == old(s)@ + decimal(n as nat),
    decreases n,
{
    if n >= 10 {
        push_decimal(s, n / 10);
    }
    let d: u8 = (n % 10) as u8;
    s.push((48 + d) as char);
}

/// Whether a character is one of `0` to `9`.
pub open spec fn is_digit(c: char) -> bool {
    48 <= c as u32 <= 57
}

/// Whether a text is made of digits only.
pub open spec fn all_digits(s: Seq<char>) -> bool {
    forall|i: int| 0 <= i < s.len() ==> is_digit(#[trigger] s[i])
}

/// The number that a row of digits stands for.
pub open spec fn digits_value(s: Seq<char>) -> nat
    decreases s.len(),
{
    if s.len() == 0 {
        0
    } else {
        (digits_value(s.drop_last()) * 10 + (s.last() as u32 - 48)) as nat
    }
}

/// What is left of a numeral after its optional plus sign.
pub open spec fn unsigned_part(s: Seq<char>) -> Seq<char> {
    if s.len() > 0 && s[0] == '+' {
        s.skip(1)
    } else {
        s
    }
}

/// How a text is read as a number of at most `max`: an optional plus sign and
/// at least one digit.
pub open spec fn parsed_number(s: Seq<char>, max: nat) -> Option<nat> {
    let d = unsigned_part(s);
    if d.len() > 0 && all_digits(d) && digits_value(d) <= max {
        Some(digits_value(d))
    } else {
        None
    }
}

proof fn lemma_digits_value_grows(s: Seq<char>, k: int)
    requires
        0 <= k <= s.len(),
        all_digits(s),
    ensures
        digits_value(s.take(k)) <= digits_value(s),
    decreases s.len() - k,
{
    if k < s.len() {
        let t = s.take(k + 1);
        assert(t.drop_last() == s.take(k));
        assert(is_digit(s[k]));
        lemma_digits_value_grows(s, k + 1);
    } else {
        assert(s.take(k) == s);
    }
}

/// Reads a number of at most `max`.
pub fn parse_number(text: &str, max: u64) -> (r: Option<u64>)
    ensures
        (match r {
            Some(n) => Some(n as nat),
            None => None,
        }) == parsed_number(text@, max as nat),
{
    let chars: Vec<char> = chars_of(text);
    let start: usize = if chars.len() > 0 && chars[0] == '+' {
        1
    } else {
        0
    };
    let ghost d = unsigned_part(text@);
    assert(d == chars@.skip(start as int));
    if start == chars.len() {
        return None;
    }
    let mut value: u64 = 0;
    let mut i: usize = start;
    while i < chars.len()
        invariant
            start <= i <= chars@.len(),
            d == chars@.skip(start as int),
            all_digits(d.take(i - start)),
            value == digits_value(d.take(i - start)),
            value <= max,
            d.len() > 0,
            d == unsigned_part(text@),
        decreases chars@.len() - i,
    {
        let c: u32 = chars[i] as u32;
        let ghost k = i - start;
        assert(d[k] == chars@[i as int]);
        assert(d.take(k + 1).drop_last() == d.take(k));
        assert(d.take(k + 1).last() == d[k]);
        if c < 48 || c > 57 {
            assert(!is_digit(d[k]));
            return None;
        }
        let add: u64 = (c - 48) as u64;
        if value > max / 10 || max - value * 10 < add {
            proof {
                if all_digits(d) {
                    lemma_digits_value_grows(d, k + 1);
                }
            }
            return None;
        }
        value = value * 10 + add;
        assert forall|j: int| 0 <= j < d.take(k + 1).len() implies is_digit(
            #[trigger] d.take(k + 1)[j],
        ) by {
            if j < k {
                assert(d.take(k)[j] == d.take(k + 1)[j]);
            }
        }
        i = i + 1;
    }
    assert(d.take(d.len() as int) == d);
    Some(value)
}

/// A number in decimal is made of digits, begins with no plus sign and reads
/// back as the same number.
pub proof fn decimal_reads_back(n: nat, max: nat)
    requires
        n <= max,
    ensures
        decimal(n).len() > 0,
        all_digits(decimal(n)),
        digits_value(decimal(n)) == n,
        parsed_number(decimal(n), max) == Some(n),
    decreases n,
{
    if n < 10 {
        let s = decimal(n);
        reveal_with_fuel(digits_value, 2);
        assert(is_digit(s[0]));
    } else {
        decimal_reads_back(n / 10, max);
        let s = decimal(n);
        assert(s.drop_last() == decimal(n / 10));
        assert(s.last() == digit_char(n % 10));
        assert forall|i: int| 0 <= i < s.len() implies is_digit(#[trigger] s[i]) by {
            if i < s.len() - 1 {
                assert(s[i] == decimal(n / 10)[i]);
            }
        }
    }
    assert(is_digit(decimal(n)[0]));
    assert(unsigned_part(decimal(n)) == decimal(n));
}

/// Whether a text begins with another.
pub open spec fn begins_with(s: Seq<char>, prefix: Seq<char>) -> bool {
    prefix.len() <= s.len() && s.take(prefix.len() as int) == prefix
}

/// What follows `prefix` in a text that begins with it.
pub open spec fn after_prefix(s: Seq<char>, prefix: Seq<char>) -> Option<Seq<char>> {
    if begins_with(s, prefix) {
        Some(s.skip(prefix.len() as int))
    } else {
        None
    }
}

/// Removes a prefix from a text that begins with it.
pub fn strip_prefix(s: &str, prefix: &str) -> (r: Option<String>)
    ensures
        (match r {
            Some(rest) => Some(rest@),
            None => None,
        }) == after_prefix(s@, prefix@),
{
    let chars: Vec<char> = chars_of(s);
    let head: Vec<char> = chars_of(prefix);
    if head.len() > chars.len() {
        return None;
    }
    let mut i: usize = 0;
    while i < head.len()
        invariant
            i <= head@.len() <= chars@.len(),
            chars@ == s@,
            head@ == prefix@,
            forall|j: int| 0 <= j < i ==> chars@[j] == head@[j],
        decreases head@.len() - i,
    {
        if chars[i] != head[i] {
            assert(s@.take(prefix@.len() as int)[i as int] != prefix@[i as int]);
            return None;
        }
        i = i + 1;
    }
    assert(s@.take(prefix@.len() as int) == prefix@);
    let rest: String = string_of(&chars, head.len(), chars.len());
    assert(rest@ == s@.skip(prefix@.len() as int));
    Some(rest)
}

/// How many bytes a text takes in UTF-8.
pub open spec fn utf8_len(s: Seq<char>) -> nat {
    encode_utf8(s).len()
}

proof fn lemma_utf8_len_last(s: Seq<char>)
    requires
        s.len() > 0,
    ensures
        utf8_len(s) == utf8_len(s.drop_last()) + encode_scalar(s.last() as u32).len(),
    decreases s.len(),
{
    if s.len() == 1 {
        reveal_with_fuel(encode_utf8, 2);
        assert(s.drop_first().len() == 0);
        assert(encode_utf8(s.drop_last()).len() == 0);
    } else {
        let t = s.drop_first();
        lemma_utf8_len_last(t);
        assert(t.drop_last() == s.drop_last().drop_first());
        assert(t.last() == s.last());
    }
}

/// A text written after another takes the bytes of both.
pub proof fn utf8_len_of_sum(a: Seq<char>, b: Seq<char>)
    ensures
        utf8_len(a + b) == utf8_len(a) + utf8_len(b),
    decreases b.len(),
{
    if b.len() == 0 {
        assert(a + b == a);
    } else {
        lemma_utf8_len_last(a + b);
        lemma_utf8_len_last(b);
        assert((a + b).drop_last() == a + b.drop_last());
        utf8_len_of_sum(a, b.drop_last());
    }
}

/// The longest beginning of a text that takes at most `limit` bytes.
pub open spec fn longest_fit(s: Seq<char>, limit: nat) -> Seq<char>
    decreases s.len(),
{
    if s.len() == 0 || utf8_len(s) <= limit {
        s
    } else {
        longest_fit(s.drop_last(), limit)
    }
}

/// A text cut to at most `max` bytes, with an ellipsis where something was cut.
pub open spec fn truncated(s: Seq<char>, max: nat) -> Seq<char> {
    if utf8_len(s) <= max {
        s
    } else {
        longest_fit(s, (max - 3) as nat) + "..."@
    }
}

/// How many bytes a character takes in UTF-8.
fn char_width(c: char) -> (r: usize)
    ensures
        r == encode_scalar(c as u32).len(),
        1 <= r <= 4,
{
    let v: u32 = c as u32;
    if v <= 0x7f {
        1
    } else if v <= 0x7ff {
        2
    } else if v <= 0xffff {
        3
    } else {
        4
    }
}

/// Cuts a text to at most `max` bytes: where it is longer, it ends in an
/// ellipsis and no character is split.
pub fn truncate(s: &str, max: usize) -> (r: String)
    requires
        max >= 3 || utf8_len(s@) <= max,
    ensures
        r@ == truncated(s@, max as nat),
{
    let total: usize = s.as_bytes().len();
    if total <= max {
        return s.to_owned();
    }
    let chars: Vec<char> = chars_of(s);
    let limit: usize = max - 3;
    let mut size: usize = total;
    let mut k: usize = chars.len();
    assert(chars@.take(k as int) == s@);
    while k > 0 && size > limit
        invariant
            k <= chars@.len(),
            chars@ == s@,
            size == utf8_len(chars@.take(k as int)),
            longest_fit(s@, limit as nat) == longest_fit(chars@.take(k as int), limit as nat),
        decreases k,
    {
        proof {
            let t = chars@.take(k as int);
            lemma_utf8_len_last(t);
            assert(t.drop_last() == chars@.take(k - 1));
        }
        size = size - char_width(chars[k - 1]);
        k = k - 1;
    }
    let mut out: String = string_of(&chars, 0, k);
    assert(out@ == chars@.take(k as int));
    out.append("...");
    out
}

proof fn lemma_longest_fit(s: Seq<char>, limit: nat)
    ensures
        utf8_len(longest_fit(s, limit)) <= limit,
        longest_fit(s, limit).len() <= s.len(),
        longest_fit(s, limit) == s.take(longest_fit(s, limit).len() as int),
    decreases s.len(),
{
    if s.len() == 0 || utf8_len(s) <= limit {
        assert(s.take(s.len() as int) == s);
        if s.len() == 0 {
            assert(encode_utf8(s).len() == 0);
        }
    } else {
        lemma_longest_fit(s.drop_last(), limit);
        let k = longest_fit(s, limit).len() as int;
        assert(s.drop_last().take(k) == s.take(k));
    }
}

/// A shortened text never takes more bytes than it was allowed, and a text that
/// fits is left as it is.
pub proof fn truncated_fits(s: Seq<char>, max: nat)
    requires
        max >= 3,
    ensures
        utf8_len(truncated(s, max)) <= max,
        utf8_len(s) <= max ==> truncated(s, max) == s,
        utf8_len(s) > max ==> begins_with(
            s,
            truncated(s, max).take(truncated(s, max).len() - 3),
        ),
{
    if utf8_len(s) > max {
        let head = longest_fit(s, (max - 3) as nat);
        lemma_longest_fit(s, (max - 3) as nat);
        utf8_len_of_sum(head, "..."@);
        reveal_strlit("...");
        is_ascii_chars_encode_utf8("..."@);
        assert(truncated(s, max).take(truncated(s, max).len() - 3) == head);
    }
}

/// A prefix is removed from exactly the texts that begin with it, and what is
/// left is the rest, letter for letter.
pub proof fn prefixes_are_removed(s: &str, prefix: &str, r: Option<String>, rest: Seq<char>)
    requires
        call_ensures(strip_prefix, (s, prefix), r),
    ensures
        s@ == prefix@ + rest <==> (r matches Some(t) && t@ == rest),
{
    if s@ == prefix@ + rest {
        assert(s@.take(prefix@.len() as int) =~= prefix@);
        assert(s@.skip(prefix@.len() as int) =~= rest);
    }
    if let Some(t) = r {
        assert(s@ =~= prefix@ + t@);
    }
}

/// A number is read as it is written, with or without a plus sign, up to the
/// largest that is allowed; nothing but digits behind that sign is read.
pub proof fn numbers_are_read_as_written(text: &str, max: u64, r: Option<u64>, n: nat)
    requires
        call_ensures(parse_number, (text, max), r),
    ensures
        text@ == decimal(n) || text@ == seq!['+'] + decimal(n) ==> if n <= max {
            r == Some(n as u64)
        } else {
            r is None
        },
        r matches Some(m) ==> m <= max && text@.len() > 0 && forall|i: int|
            1 <= i < text@.len() ==> 48 <= #[trigger] text@[i] as u32 <= 57,
        r is Some ==> text@[0] == '+' || 48 <= text@[0] as u32 <= 57,
{
    decimal_reads_back(n, n);
    if text@ == decimal(n) {
        assert(is_digit(decimal(n)[0]));
        assert(unsigned_part(text@) == decimal(n));
    }
    if text@ == seq!['+'] + decimal(n) {
        assert(text@.skip(1) =~= decimal(n));
    }
    if r is Some {
        let d = unsigned_part(text@);
        assert(is_digit(d[0]));
        assert forall|i: int| 1 <= i < text@.len() implies 48 <= #[trigger] text@[i] as u32 <= 57 by {
            if text@[0] == '+' {
                assert(is_digit(d[i - 1]));
            } else {
                assert(is_digit(d[i]));
            }
        }
    }
}

/// A number in decimal has no zeros in front.
pub proof fn decimals_have_no_zeros_in_front(n: nat)
    requires
        n > 0,
    ensures
        decimal(n)[0] != '0',
    decreases n,
{
    if n >= 10 {
        decimals_have_no_zeros_in_front(n / 10);
        decimal_reads_back(n / 10, n);
        assert(decimal(n)[0] == decimal(n / 10)[0]);
    }
}

proof fn lemma_longest_fit_is_longest(s: Seq<char>, limit: nat, k: int)
    requires
        0 <= k <= s.len(),
        utf8_len(s.take(k)) <= limit,
    ensures
        k <= longest_fit(s, limit).len(),
    decreases s.len(),
{
    if s.len() > 0 && utf8_len(s) > limit {
        if k == s.len() {
            assert(s.take(k) =~= s);
        } else {
            assert(s.drop_last().take(k) =~= s.take(k));
            lemma_longest_fit_is_longest(s.drop_last(), limit, k);
        }
    }
}

/// A text that fits is left as it is; a longer one ends in three dots, before
/// which stands as much of its beginning as fits beside them and no less.
pub proof fn long_texts_end_in_dots(s: &str, max: usize, r: String, k: int)
    requires
        call_ensures(truncate, (s, max), r),
        max >= 3,
    ensures
        utf8_len(s@) <= max ==> r@ == s@,
        utf8_len(s@) > max ==> {
            let n = r@.len() - 3;
            &&& 0 <= n <= s@.len()
            &&& r@.take(n) == s@.take(n)
            &&& r@[n] == '.' && r@[n + 1] == '.' && r@[n + 2] == '.'
            &&& utf8_len(s@.take(n)) + 3 <= max
            &&& n < k <= s@.len() ==> utf8_len(s@.take(k)) + 3 > max
        },
{
    if utf8_len(s@) > max {
        let limit = (max - 3) as nat;
        let head = longest_fit(s@, limit);
        reveal_strlit("...");
        lemma_longest_fit(s@, limit);
        assert(r@.take(r@.len() - 3) =~= head);
        if head.len() < k <= s@.len() && utf8_len(s@.take(k)) <= limit {
            lemma_longest_fit_is_longest(s@, limit, k);
        }
    }
}

} // verus!
