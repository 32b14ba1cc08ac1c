//! Text in UTF-16, as the windowing system takes and gives it.

use vstd::prelude::*;

use crate::text::chars_of;

verus! {

/// One character in UTF-16: one unit, or two for characters from `0x10000` on.
pub open spec fn char_units(c: char) -> Seq<u16> {
    let v = c as u32 as int;
    if v < 0x10000 {
        seq![v as u16]
    } else {
        seq![(0xd800 + (v - 0x10000) / 0x400) as u16, (0xdc00 + (v - 0x10000) % 0x400) as u16]
    }
}

/// A text in UTF-16.
pub open spec fn utf16(s: Seq<char>) -> Seq<u16>
    decreases s.len(),
{
    if s.len() == 0 {
        Seq::empty()
    } else {
        char_units(s[0]) + utf16(s.drop_first())
    }
}

proof fn lemma_utf16_push(s: Seq<char>, c: char)
    ensures
        utf16(s.push(c)) == utf16(s) + char_units(c),
    decreases s.len(),
{
    if s.len() == 0 {
        assert(s.push(c).drop_first() == s);
        assert(utf16(s) == Seq::<u16>::empty());
        assert(utf16(s.push(c)) == char_units(c) + utf16(s));
        assert(utf16(s.push(c)) =~= utf16(s) + char_units(c));
    } else {
        assert(s.push(c).drop_first() == s.drop_first().push(c));
        lemma_utf16_push(s.drop_first(), c);
        assert(utf16(s.push(c)) =~= utf16(s) + char_units(c));
    }
}

/// A text in UTF-16 with a closing zero.
pub fn to_wide(s: &str) -> (r: Vec<u16>)
    ensures
        r@ == utf16(s@).push(0),
{
    let chars: Vec<char> = chars_of(s);
    let mut out: Vec<u16> = Vec::new();
    let mut i: usize = 0;
    while i < chars.len()
        invariant
            i <= chars@.len(),
            out@ == utf16(chars@.take(i as int)),
        decreases chars@.len() - i,
    {
        proof {
            assert(chars@.take(i + 1) == chars@.take(i as int).push(chars@[i as int]));
            lemma_utf16_push(chars@.take(i as int), chars@[i as int]);
        }
        let ghost before = out@;
        let c: char = chars[i];
        let v: u32 = c as u32;
        assert(v <= 0x10ffff) by {
            vstd::utf8::char_is_scalar(c);
        }
        if v < 0x10000 {
            out.push(v as u16);
        } else {
            out.push((0xd800 + (v - 0x10000) / 0x400) as u16);
            out.push((0xdc00 + (v - 0x10000) % 0x400) as u16);
        }
        assert(out@ == before + char_units(chars@[i as int]));
        i = i + 1;
    }
    assert(chars@.take(chars@.len() as int) == chars@);
    out.push(0);
    out
}

/// Whether a unit is the first of a pair.
pub open spec fn is_high(u: u16) -> bool {
    0xd800 <= u <= 0xdbff
}

/// Whether a unit is the second of a pair.
pub open spec fn is_low(u: u16) -> bool {
    0xdc00 <= u <= 0xdfff
}

/// The text that units stand for; a unit of a broken pair reads as the
/// replacement character.
pub open spec fn lossy_text(units: Seq<u16>) -> Seq<char>
    decreases units.len(),
{
    if units.len() == 0 {
        Seq::empty()
    } else if !is_high(units[0]) && !is_low(units[0]) {
        seq![units[0] as char] + lossy_text(units.skip(1))
    } else if is_high(units[0]) && units.len() > 1 && is_low(units[1]) {
        seq![(0x10000 + (units[0] - 0xd800) * 0x400 + (units[1] - 0xdc00)) as char] + lossy_text(
            units.skip(2),
        )
    } else {
        seq!['\u{FFFD}'] + lossy_text(units.skip(1))
    }
}

/// The units before the first zero.
pub open spec fn before_zero(units: Seq<u16>) -> Seq<u16>
    decreases units.len(),
{
    if units.len() == 0 || units[0] == 0 {
        Seq::empty()
    } else {
        seq![units[0]] + before_zero(units.skip(1))
    }
}

proof fn lemma_before_zero(units: Seq<u16>, n: int)
    requires
        0 <= n <= units.len(),
        forall|i: int| 0 <= i < n ==> units[i] != 0,
        n < units.len() ==> units[n] == 0,
    ensures
        before_zero(units) == units.take(n),
    decreases n,
{
    if n > 0 {
        let rest = units.skip(1);
        assert forall|i: int| 0 <= i < n - 1 implies rest[i] != 0 by {
            assert(rest[i] == units[i + 1]);
        }
        lemma_before_zero(rest, n - 1);
        assert(before_zero(units) =~= units.take(n));
    } else {
        assert(before_zero(units) =~= units.take(0));
    }
}

/// The number of units before the first zero.
fn zero_position(units: &[u16]) -> (n: usize)
    ensures
        n <= units@.len(),
        before_zero(units@) == units@.take(n as int),
        forall|i: int| 0 <= i < n ==> units@[i] != 0,
{
    let mut n: usize = 0;
    while n < units.len() && units[n] != 0
        invariant
            n <= units@.len(),
            forall|i: int| 0 <= i < n ==> units@[i] != 0,
        decreases units@.len() - n,
    {
        n = n + 1;
    }
    proof {
        lemma_before_zero(units@, n as int);
    }
    n
}

fn char_at(v: u32) -> (c: char)
    requires
        v <= 0xd7ff || 0xe000 <= v <= 0x10ffff,
    ensures
        c == v as char,
{
    match char::from_u32(v) {
        Some(c) => c,
        None => '\u{FFFD}',
    }
}

/// Reads the text in a buffer up to its first zero; broken pairs become the
/// replacement character.
pub fn text_from_wide(buf: &[u16]) -> (r: String)
    ensures
        r@ == lossy_text(before_zero(buf@)),
{
    let n: usize = zero_position(buf);
    let ghost units = buf@.take(n as int);
    let mut out = String::new();
    let mut i: usize = 0;
    assert(units.skip(0) == units);
    while i < n
        invariant
            i <= n <= buf@.len(),
            units == buf@.take(n as int),
            lossy_text(units) == out@ + lossy_text(units.skip(i as int)),
        decreases n - i,
    {
        let ghost rest = units.skip(i as int);
        let ghost before = out@;
        let u: u32 = buf[i] as u32;
        assert(rest[0] == buf@[i as int]);
        assert(rest.skip(1) == units.skip(i + 1));
        let high: bool = 0xd800 <= u && u <= 0xdbff;
        let low: bool = 0xdc00 <= u && u <= 0xdfff;
        if !high && !low {
            out.push(char_at(u));
            assert(out@ =~= before + seq![rest[0] as char]);
            i = i + 1;
        } else if high && n - i > 1 && 0xdc00 <= buf[i + 1] && buf[i + 1] <= 0xdfff {
            assert(rest[1] == buf@[i + 1]);
            assert(rest.skip(2) == units.skip(i + 2));
            let w: u32 = buf[i + 1] as u32;
            out.push(char_at(0x10000 + (u - 0xd800) * 0x400 + (w - 0xdc00)));
            assert(out@ =~= before + seq![
                (0x10000 + (rest[0] - 0xd800) * 0x400 + (rest[1] - 0xdc00)) as char,
            ]);
            i = i + 2;
        } else {
            if n - i > 1 {
                assert(rest[1] == buf@[i + 1]);
            }
            out.push('\u{FFFD}');
            assert(out@ =~= before + seq!['\u{FFFD}']);
            i = i + 1;
        }
        assert(lossy_text(units) =~= out@ + lossy_text(units.skip(i as int)));
    }
    assert(lossy_text(units.skip(n as int)) =~= Seq::<char>::empty());
    out
}

/// The characters of single units, with `other` in place of units that are no
/// character by themselves.
pub open spec fn unit_chars(units: Seq<u16>, other: char) -> Seq<char> {
    units.map_values(
        |u: u16|
            if is_high(u) || is_low(u) {
                other
            } else {
                u as char
            },
    )
}

/// Reads a buffer up to its first zero unit by unit.
pub fn chars_from_wide(buf: &[u16], other: char) -> (r: String)
    ensures
        r@ == unit_chars(before_zero(buf@), other),
{
    let n: usize = zero_position(buf);
    let ghost units = buf@.take(n as int);
    let mut out = String::new();
    let mut i: usize = 0;
    while i < n
        invariant
            i <= n <= buf@.len(),
            units == buf@.take(n as int),
            out@ == unit_chars(units, other).take(i as int),
        decreases n - i,
    {
        assert(unit_chars(units, other).take(i + 1) == unit_chars(units, other).take(i as int).push(
            unit_chars(units, other)[i as int],
        ));
        let c: char = match char::from_u32(buf[i] as u32) {
            Some(c) => c,
            None => other,
        };
        out.push(c);
        i = i + 1;
    }
    assert(unit_chars(units, other).take(n as int) == unit_chars(units, other));
    out
}

proof fn lemma_char_reads_back(c: char, rest: Seq<u16>)
    ensures
        lossy_text(char_units(c) + rest) == seq![c] + lossy_text(rest),
{
    let units = char_units(c) + rest;
    let v = c as u32 as int;
    assert(v <= 0xd7ff || 0xe000 <= v <= 0x10ffff);
    if v < 0x10000 {
        assert(units.skip(1) == rest);
        assert(units[0] == v as u16);
        assert(units[0] as char == c);
    } else {
        assert(units.skip(2) == rest);
        let d = v - 0x10000;
        assert(0 <= d / 0x400 < 0x400);
        assert(0 <= d % 0x400 < 0x400);
        assert(units[0] == 0xd800 + d / 0x400);
        assert(units[1] == 0xdc00 + d % 0x400);
        assert(0x10000 + (units[0] - 0xd800) * 0x400 + (units[1] - 0xdc00) == v);
    }
}

/// A text written in UTF-16 reads back as it was.
pub proof fn utf16_reads_back(s: Seq<char>)
    ensures
        lossy_text(utf16(s)) == s,
    decreases s.len(),
{
    if s.len() == 0 {
        assert(lossy_text(utf16(s)) =~= s);
    } else {
        lemma_char_reads_back(s[0], utf16(s.drop_first()));
        utf16_reads_back(s.drop_first());
        assert(lossy_text(utf16(s)) =~= s);
    }
}

/// Whether all characters of a text are single units and none is zero.
pub open spec fn is_plain(s: Seq<char>) -> bool {
    forall|i: int| 0 <= i < s.len() ==> '\0' < #[trigger] s[i] <= '\u{D7FF}'
}

proof fn lemma_plain_units(s: Seq<char>)
    requires
        is_plain(s),
    ensures
        utf16(s).len() == s.len(),
        forall|i: int| 0 <= i < s.len() ==> #[trigger] utf16(s)[i] == s[i] as u16,
    decreases s.len(),
{
    if s.len() > 0 {
        let rest = s.drop_first();
        assert forall|i: int| 0 <= i < rest.len() implies '\0' < #[trigger] rest[i]
            <= '\u{D7FF}' by {
            assert(rest[i] == s[i + 1]);
        }
        lemma_plain_units(rest);
        assert(char_units(s[0]) =~= seq![s[0] as u16]) by {
            assert((s[0] as u32 as int) as u16 == s[0] as u16);
        }
        assert forall|i: int| 0 <= i < s.len() implies #[trigger] utf16(s)[i] == s[i] as u16 by {
            if i > 0 {
                assert(utf16(s)[i] == utf16(rest)[i - 1]);
                assert(rest[i - 1] == s[i]);
            }
        }
    }
}

/// What stands before the closing zero of a plain text is the text.
pub proof fn plain_units_stand_before_zero(s: Seq<char>)
    requires
        is_plain(s),
    ensures
        before_zero(utf16(s).push(0)) == utf16(s),
{
    let units = utf16(s).push(0);
    lemma_plain_units(s);
    assert forall|i: int| 0 <= i < s.len() implies units[i] != 0 by {
        assert(units[i] == utf16(s)[i]);
    }
    lemma_before_zero(units, s.len() as int);
    assert(units.take(s.len() as int) =~= utf16(s));
}

/// A plain text that is put into a field is read from it as it was.
pub proof fn plain_text_reads_back(s: Seq<char>, other: char)
    requires
        is_plain(s),
    ensures
        unit_chars(before_zero(utf16(s).push(0)), other) == s,
{
    let units = utf16(s).push(0);
    lemma_plain_units(s);
    assert forall|i: int| 0 <= i < s.len() implies units[i] != 0 by {
        assert(units[i] == utf16(s)[i]);
    }
    lemma_before_zero(units, s.len() as int);
    let read = unit_chars(before_zero(units), other);
    assert forall|i: int| 0 <= i < s.len() implies read[i] == s[i] by {
        assert(units[i] == utf16(s)[i]);
        assert(units[i] == s[i] as u16);
        assert(units[i] as char == s[i]);
    }
    assert(read =~= s);
}

/// A plain character is one unit of its own number; any other from `0x10000` on
/// is a pair of which the first unit holds its upper ten bits and the second its
/// lower ten.
pub proof fn characters_are_units_of_their_number(c: char)
    ensures
        (c as u32) < 0x10000 ==> char_units(c).len() == 1 && char_units(c)[0] == c as u32,
        (c as u32) >= 0x10000 ==> {
            let units = char_units(c);
            &&& units.len() == 2
            &&& 0xd800 <= units[0] < 0xdc00
            &&& 0xdc00 <= units[1] < 0xe000
            &&& (units[0] - 0xd800) * 0x400 + (units[1] - 0xdc00) + 0x10000 == c as u32
        },
{
    vstd::utf8::char_is_scalar(c);
}

/// Text goes to the windowing system character by character, in order, with one
/// zero behind it.
pub proof fn wide_text_goes_character_by_character(s: &str, r: Vec<u16>, a: Seq<char>, c: char, b: Seq<char>)
    requires
        call_ensures(to_wide, (s,), r),
        s@ == a + seq![c] + b,
    ensures
        r@ == utf16(a) + char_units(c) + utf16(b) + seq![0u16],
        s@.len() == 1 ==> r@ == char_units(c) + seq![0u16],
{
    lemma_utf16_of_sum(a + seq![c], b);
    lemma_utf16_of_sum(a, seq![c]);
    assert(utf16(seq![c]) =~= char_units(c)) by {
        assert(seq![c].drop_first() =~= Seq::<char>::empty());
        assert(utf16(Seq::<char>::empty()) =~= Seq::<u16>::empty());
    }
    assert(r@ =~= utf16(a) + char_units(c) + utf16(b) + seq![0u16]);
    if s@.len() == 1 {
        assert(a =~= Seq::<char>::empty() && b =~= Seq::<char>::empty());
        assert(utf16(Seq::<char>::empty()) =~= Seq::<u16>::empty());
        assert(r@ =~= char_units(c) + seq![0u16]);
    }
}

proof fn lemma_utf16_of_sum(a: Seq<char>, b: Seq<char>)
    ensures
        utf16(a + b) == utf16(a) + utf16(b),
    decreases b.len(),
{
    if b.len() == 0 {
        assert(a + b =~= a);
        assert(utf16(a) + utf16(b) =~= utf16(a));
    } else {
        assert(a + b =~= (a + b.drop_last()).push(b.last()));
        lemma_utf16_of_sum(a, b.drop_last());
        lemma_utf16_push(a + b.drop_last(), b.last());
        lemma_utf16_push(b.drop_last(), b.last());
        assert(b.drop_last().push(b.last()) =~= b);
        assert(utf16(a + b) =~= utf16(a) + utf16(b));
    }
}

proof fn lemma_number_above_zero(c: char)
    requires
        '\0' < c,
    ensures
        (c as u32) > 0,
{
}

proof fn lemma_units_are_not_zero(s: Seq<char>)
    requires
        forall|i: int| 0 <= i < s.len() ==> '\0' < #[trigger] s[i],
    ensures
        forall|i: int| 0 <= i < utf16(s).len() ==> #[trigger] utf16(s)[i] != 0,
    decreases s.len(),
{
    if s.len() > 0 {
        let rest = s.drop_first();
        assert forall|i: int| 0 <= i < rest.len() implies '\0' < #[trigger] rest[i] by {
            assert(rest[i] == s[i + 1]);
        }
        lemma_units_are_not_zero(rest);
        characters_are_units_of_their_number(s[0]);
        lemma_number_above_zero(s[0]);
        let first = char_units(s[0]);
        assert forall|i: int| 0 <= i < utf16(s).len() implies #[trigger] utf16(s)[i] != 0 by {
            if i < first.len() {
                assert(utf16(s)[i] == first[i]);
            } else {
                assert(utf16(s)[i] == utf16(rest)[i - first.len()]);
            }
        }
    }
}

/// A text without zeros that goes to the windowing system and comes back is the
/// same text, whatever follows it in the buffer.
pub proof fn texts_come_back_as_they_went(s: &str, wide: Vec<u16>, buf: &[u16], r: String, behind: Seq<u16>)
    requires
        call_ensures(to_wide, (s,), wide),
        buf@ == wide@ + behind,
        call_ensures(text_from_wide, (buf,), r),
        forall|i: int| 0 <= i < s@.len() ==> '\0' < #[trigger] s@[i],
    ensures
        r@ == s@,
{
    let n = utf16(s@).len() as int;
    lemma_units_are_not_zero(s@);
    assert forall|i: int| 0 <= i < n implies buf@[i] != 0 by {
        assert(buf@[i] == utf16(s@)[i]);
    }
    lemma_before_zero(buf@, n);
    assert(buf@.take(n) =~= utf16(s@));
    utf16_reads_back(s@);
}

/// A unit of a pair that stands alone reads as the replacement character, and
/// what follows is read as if it were not there.
pub proof fn broken_pairs_are_replaced(unit: u16, rest: Seq<u16>)
    requires
        0xdc00 <= unit < 0xe000 || 0xd800 <= unit < 0xdc00 && (rest.len() == 0 || !(0xdc00
            <= rest[0] < 0xe000)),
    ensures
        lossy_text(seq![unit] + rest) == seq!['\u{FFFD}'] + lossy_text(rest),
{
    assert((seq![unit] + rest).skip(1) =~= rest);
    if rest.len() > 0 {
        assert((seq![unit] + rest)[1] == rest[0]);
    }
}

/// Reading unit by unit gives each unit before the first zero as the character
/// of its number, and the given character for one that is no character.
pub proof fn units_are_read_one_by_one(buf: &[u16], other: char, r: String, n: int, i: int)
    requires
        call_ensures(chars_from_wide, (buf, other), r),
        0 <= n <= buf@.len(),
        forall|k: int| 0 <= k < n ==> buf@[k] != 0,
        n < buf@.len() ==> buf@[n] == 0,
        0 <= i < n,
    ensures
        r@.len() == n,
        0xd800 <= buf@[i] < 0xe000 ==> r@[i] == other,
        !(0xd800 <= buf@[i] < 0xe000) ==> r@[i] as u32 == buf@[i],
{
    lemma_before_zero(buf@, n);
}

} // verus!
