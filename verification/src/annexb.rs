//! H.264 units in a byte stream: taking a stream apart at its start codes and
//! putting units together again.

use bytes::Bytes;
use vstd::prelude::*;

use crate::trusted::{buffer_bytes, buffer_from, buffer_slice};

verus! {

/// The length of the start code at position `i`: four for `0 0 0 1`, three for
/// `0 0 1`, and zero where none begins.
pub open spec fn start_code_len(bs: Seq<u8>, i: int) -> int {
    if 0 <= i && i + 3 < bs.len() && bs[i] == 0 && bs[i + 1] == 0 && bs[i + 2] == 0 && bs[i + 3]
        == 1 {
        4
    } else if 0 <= i && i + 2 < bs.len() && bs[i] == 0 && bs[i + 1] == 0 && bs[i + 2] == 1 {
        3
    } else {
        0
    }
}

/// The first position from `i` on at which a start code begins, or the end of
/// the stream.
pub open spec fn next_start_code(bs: Seq<u8>, i: int) -> int
    decreases bs.len() - i,
{
    if i >= bs.len() || start_code_len(bs, i) > 0 {
        i
    } else {
        next_start_code(bs, i + 1)
    }
}

proof fn lemma_next_start_code(bs: Seq<u8>, i: int)
    requires
        0 <= i <= bs.len(),
    ensures
        i <= next_start_code(bs, i) <= bs.len(),
    decreases bs.len() - i,
{
    if i < bs.len() && start_code_len(bs, i) == 0 {
        lemma_next_start_code(bs, i + 1);
    }
}

/// A unit counts only from two bytes on.
pub open spec fn kept_unit(unit: Seq<u8>) -> Seq<Seq<u8>> {
    if unit.len() > 1 {
        seq![unit]
    } else {
        Seq::empty()
    }
}

/// The units of a stream: the stretches between start codes, without those of
/// less than two bytes.
pub open spec fn units(bs: Seq<u8>) -> Seq<Seq<u8>>
    decreases bs.len(),
    via units_decreases
{
    let i = next_start_code(bs, 0);
    if i >= bs.len() {
        kept_unit(bs)
    } else {
        kept_unit(bs.take(i)) + units(bs.skip(i + start_code_len(bs, i)))
    }
}

#[via_fn]
proof fn units_decreases(bs: Seq<u8>) {
    let i = next_start_code(bs, 0);
    lemma_next_start_code(bs, 0);
    lemma_code_at_next(bs, 0);
}

proof fn lemma_code_at_next(bs: Seq<u8>, i: int)
    requires
        0 <= i <= bs.len(),
    ensures
        next_start_code(bs, i) < bs.len() ==> {
            let k = next_start_code(bs, i);
            start_code_len(bs, k) > 0 && k + start_code_len(bs, k) <= bs.len()
        },
    decreases bs.len() - i,
{
    if i < bs.len() && start_code_len(bs, i) == 0 {
        lemma_code_at_next(bs, i + 1);
    }
}

/// The contents of a row of byte vectors.
pub open spec fn byte_rows(rows: Seq<Vec<u8>>) -> Seq<Seq<u8>> {
    rows.map_values(|row: Vec<u8>| row@)
}

/// The contents of a row of buffers.
pub open spec fn buffer_rows(rows: Seq<Bytes>) -> Seq<Seq<u8>> {
    rows.map_values(|row: Bytes| buffer_bytes(row))
}

fn copy_range(bs: &[u8], from: usize, to: usize) -> (r: Vec<u8>)
    requires
        from <= to <= bs@.len(),
    ensures
        r@ == bs@.subrange(from as int, to as int),
{
    let mut out: Vec<u8> = Vec::new();
    let mut i: usize = from;
    while i < to
        invariant
            from <= i <= to <= bs@.len(),
            out@ == bs@.subrange(from as int, i as int),
        decreases to - i,
    {
        out.push(bs[i]);
        i = i + 1;
    }
    out
}

/// Takes a stream apart at its start codes.
pub fn split_annex_b(bs: &[u8]) -> (r: Vec<Vec<u8>>)
    ensures
        byte_rows(r@) == units(bs@),
{
    let mut nals: Vec<Vec<u8>> = Vec::new();
    let mut start: usize = 0;
    let mut i: usize = 0;
    let n: usize = bs.len();
    assert(bs@.skip(0) == bs@);
    assert(byte_rows(nals@) == Seq::<Seq<u8>>::empty());
    while i < n
        invariant
            n == bs@.len(),
            start <= i <= n,
            units(bs@) == byte_rows(nals@) + units(bs@.skip(start as int)),
            next_start_code(bs@.skip(start as int), 0) == next_start_code(
                bs@.skip(start as int),
                i - start,
            ),
        decreases n - i,
    {
        let ghost rest = bs@.skip(start as int);
        let ghost k = i - start;
        let four: bool = n - i > 3 && bs[i] == 0 && bs[i + 1] == 0 && bs[i + 2] == 0 && bs[i + 3]
            == 1;
        let three: bool = n - i > 2 && bs[i] == 0 && bs[i + 1] == 0 && bs[i + 2] == 1;
        if four || three {
            let len: usize = if four {
                4
            } else {
                3
            };
            let ghost before = byte_rows(nals@);
            assert(start_code_len(rest, k) == len);
            assert(rest.take(k) == bs@.subrange(start as int, i as int));
            assert(rest.skip(k + len) == bs@.skip(i + len));
            if i - start > 1 {
                let unit: Vec<u8> = copy_range(bs, start, i);
                nals.push(unit);
            }
            assert(byte_rows(nals@) == before + kept_unit(rest.take(k)));
            assert(units(bs@) == byte_rows(nals@) + units(bs@.skip(i + len)));
            start = i + len;
            i = i + len;
        } else {
            assert(start_code_len(rest, k) == 0);
            i = i + 1;
        }
    }
    let ghost rest = bs@.skip(start as int);
    let ghost before = byte_rows(nals@);
    assert(rest == bs@.subrange(start as int, n as int));
    if n - start > 1 {
        let unit: Vec<u8> = copy_range(bs, start, n);
        nals.push(unit);
    }
    assert(byte_rows(nals@) == before + kept_unit(rest));
    nals
}

/// The four-byte start code.
pub open spec fn long_start_code() -> Seq<u8> {
    seq![0u8, 0u8, 0u8, 1u8]
}

/// Units one after another, each behind a four-byte start code.
pub open spec fn joined_units(nals: Seq<Seq<u8>>) -> Seq<u8>
    decreases nals.len(),
{
    if nals.len() == 0 {
        Seq::empty()
    } else {
        long_start_code() + nals[0] + joined_units(nals.drop_first())
    }
}

proof fn lemma_joined_push(nals: Seq<Seq<u8>>, last: Seq<u8>)
    ensures
        joined_units(nals.push(last)) == joined_units(nals) + long_start_code() + last,
    decreases nals.len(),
{
    if nals.len() == 0 {
        assert(nals.push(last).drop_first() == nals);
        assert(joined_units(nals.push(last)) == long_start_code() + last + joined_units(nals));
        assert(joined_units(nals) == Seq::<u8>::empty());
        assert(joined_units(nals.push(last)) == joined_units(nals) + long_start_code() + last);
    } else {
        assert(nals.push(last).drop_first() == nals.drop_first().push(last));
        lemma_joined_push(nals.drop_first(), last);
        assert(joined_units(nals.push(last)) == joined_units(nals) + long_start_code() + last);
    }
}

fn append_bytes(out: &mut Vec<u8>, bs: &[u8])
    ensures
        final(out)@ == old(out)@ + bs@,
{
    let mut i: usize = 0;
    let ghost before = out@;
    while i < bs.len()
        invariant
            i <= bs@.len(),
            out@ == before + bs@.take(i as int),
        decreases bs@.len() - i,
    {
        out.push(bs[i]);
        i = i + 1;
    }
    assert(bs@.take(bs@.len() as int) == bs@);
}

/// Puts units together into the bytes of one sample.
pub fn nals_to_sample_data(nals: &[Bytes]) -> (r: Bytes)
    ensures
        buffer_bytes(r) == joined_units(buffer_rows(nals@)),
{
    let mut data: Vec<u8> = Vec::new();
    let mut i: usize = 0;
    while i < nals.len()
        invariant
            i <= nals@.len(),
            data@ == joined_units(buffer_rows(nals@).take(i as int)),
        decreases nals@.len() - i,
    {
        proof {
            let rows = buffer_rows(nals@);
            assert(rows.take(i + 1) == rows.take(i as int).push(rows[i as int]));
            lemma_joined_push(rows.take(i as int), rows[i as int]);
        }
        let ghost before = data@;
        data.push(0);
        data.push(0);
        data.push(0);
        data.push(1);
        assert(data@ == before + long_start_code());
        append_bytes(&mut data, buffer_slice(&nals[i]));
        i = i + 1;
    }
    assert(buffer_rows(nals@).take(nals@.len() as int) == buffer_rows(nals@));
    buffer_from(data)
}

/// Whether a unit can be told apart in a stream: it has at least two bytes and
/// no start code inside.
pub open spec fn is_clean_unit(unit: Seq<u8>) -> bool {
    &&& unit.len() > 1
    &&& forall|i: int|
        0 <= i && i + 2 < unit.len() ==> !(#[trigger] unit[i] == 0 && unit[i + 1] == 0 && unit[i
            + 2] == 1)
}

proof fn lemma_no_code_inside(unit: Seq<u8>, rest: Seq<u8>, i: int)
    requires
        is_clean_unit(unit),
        rest.len() == 0 || rest.len() >= 4 && rest.take(4) == long_start_code(),
        0 <= i <= unit.len(),
    ensures
        next_start_code(unit + rest, i) == unit.len(),
    decreases unit.len() - i,
{
    let bs = unit + rest;
    if rest.len() > 0 {
        assert(rest.take(4)[0] == 0 && rest.take(4)[1] == 0 && rest.take(4)[2] == 0 && rest.take(
            4,
        )[3] == 1);
        assert(bs[unit.len() as int] == 0);
        assert(bs[unit.len() as int + 1] == 0);
        assert(bs[unit.len() as int + 2] == 0);
        assert(bs[unit.len() as int + 3] == 1);
    }
    if i < unit.len() {
        assert(start_code_len(bs, i) == 0) by {
            if start_code_len(bs, i) == 4 {
                if i + 3 < unit.len() {
                    assert(unit[i + 1] == 0);
                }
            }
            if start_code_len(bs, i) == 3 {
                if i + 2 < unit.len() {
                    assert(unit[i] == 0);
                }
            }
        }
        lemma_no_code_inside(unit, rest, i + 1);
    }
}

/// Joined units come apart again as they were, whenever each has at least two
/// bytes and no start code inside.
pub proof fn joined_units_come_apart(nals: Seq<Seq<u8>>)
    requires
        forall|i: int| 0 <= i < nals.len() ==> is_clean_unit(#[trigger] nals[i]),
    ensures
        units(joined_units(nals)) == nals,
    decreases nals.len(),
{
    let bs = joined_units(nals);
    if nals.len() == 0 {
        assert(units(bs) == nals);
    } else {
        let first = nals[0];
        let tail = nals.drop_first();
        let rest = joined_units(tail);
        assert forall|i: int| 0 <= i < tail.len() implies is_clean_unit(#[trigger] tail[i]) by {
            assert(tail[i] == nals[i + 1]);
        }
        joined_units_come_apart(tail);
        if tail.len() > 0 {
            assert(rest.take(4) == long_start_code());
        }
        let body = first + rest;
        assert(bs == long_start_code() + body);
        assert(start_code_len(bs, 0) == 4);
        assert(next_start_code(bs, 0) == 0);
        assert(bs.skip(4) == body);
        assert(bs.take(0).len() == 0);
        assert(units(bs) == units(body));
        lemma_no_code_inside(first, rest, 0);
        if tail.len() == 0 {
            assert(body == first);
            assert(units(body) == seq![first]);
            assert(nals == seq![first]);
        } else {
            let k = first.len() as int;
            assert(start_code_len(body, k) == 4) by {
                assert(rest.take(4)[0] == 0);
                assert(rest.take(4)[1] == 0);
                assert(rest.take(4)[2] == 0);
                assert(rest.take(4)[3] == 1);
            }
            assert(body.take(k) == first);
            assert(units(body) == seq![first] + units(body.skip(k + 4)));
            assert(start_code_len(rest, 0) == 4) by {
                assert(rest.take(4)[0] == 0);
                assert(rest.take(4)[1] == 0);
                assert(rest.take(4)[2] == 0);
                assert(rest.take(4)[3] == 1);
            }
            assert(next_start_code(rest, 0) == 0);
            assert(rest.take(0).len() == 0);
            assert(body.skip(k + 4) == rest.skip(4));
            assert(units(rest) == units(rest.skip(4)));
            assert(nals == seq![first] + tail);
        }
    }
}

/// Where unit `k` of a row begins once all are joined, with its start code:
/// behind the units before it and a start code of four bytes for each.
pub open spec fn place_of(nals: Seq<Seq<u8>>, k: int) -> int
    decreases k,
{
    if k <= 0 {
        0
    } else {
        place_of(nals, k - 1) + 4 + nals[k - 1].len()
    }
}

/// Whether a unit stands at a place in a stream, behind `0 0 0 1`.
pub open spec fn stands_at(data: Seq<u8>, unit: Seq<u8>, at: int) -> bool {
    &&& 0 <= at && at + 4 + unit.len() <= data.len()
    &&& data[at] == 0 && data[at + 1] == 0 && data[at + 2] == 0 && data[at + 3] == 1
    &&& data.subrange(at + 4, at + 4 + unit.len()) == unit
}

/// Whether data hold these units and nothing else.
pub open spec fn holds_units(data: Seq<u8>, nals: Seq<Seq<u8>>) -> bool {
    &&& data.len() == place_of(nals, nals.len() as int)
    &&& forall|k: int|
        0 <= k < nals.len() ==> stands_at(data, #[trigger] nals[k], place_of(nals, k))
}

proof fn lemma_place_behind_first(nals: Seq<Seq<u8>>, k: int)
    requires
        1 <= k <= nals.len(),
    ensures
        place_of(nals, k) == 4 + nals[0].len() + place_of(nals.drop_first(), k - 1),
    decreases k,
{
    reveal_with_fuel(place_of, 2);
    if k > 1 {
        lemma_place_behind_first(nals, k - 1);
        assert(nals.drop_first()[k - 2] == nals[k - 1]);
    }
}

proof fn lemma_stands_behind(head: Seq<u8>, data: Seq<u8>, unit: Seq<u8>, at: int)
    requires
        stands_at(data, unit, at),
    ensures
        stands_at(head + data, unit, head.len() + at),
{
    let from = head.len() + at + 4;
    assert((head + data).subrange(from, from + unit.len()) =~= data.subrange(
        at + 4,
        at + 4 + unit.len(),
    ));
}

proof fn lemma_first_stands(unit: Seq<u8>, rest: Seq<u8>)
    ensures
        stands_at(seq![0u8, 0u8, 0u8, 1u8] + unit + rest, unit, 0),
{
    let data = seq![0u8, 0u8, 0u8, 1u8] + unit + rest;
    assert(data.subrange(4, 4 + unit.len() as int) =~= unit);
}

proof fn lemma_joined_len(nals: Seq<Seq<u8>>)
    ensures
        joined_units(nals).len() == place_of(nals, nals.len() as int),
    decreases nals.len(),
{
    if nals.len() > 0 {
        lemma_joined_len(nals.drop_first());
        lemma_place_behind_first(nals, nals.len() as int);
    }
}

proof fn lemma_unit_stands(nals: Seq<Seq<u8>>, k: int)
    requires
        0 <= k < nals.len(),
    ensures
        stands_at(joined_units(nals), nals[k], place_of(nals, k)),
    decreases nals.len(),
{
    let tail = nals.drop_first();
    if k == 0 {
        lemma_first_stands(nals[0], joined_units(tail));
    } else {
        assert(tail[k - 1] == nals[k]);
        lemma_unit_stands(tail, k - 1);
        lemma_place_behind_first(nals, k);
        lemma_stands_behind(
            long_start_code() + nals[0],
            joined_units(tail),
            nals[k],
            place_of(tail, k - 1),
        );
    }
}

/// Joined units stand one behind the other in their order, each behind the four
/// bytes of a start code, and nothing else is there.
pub proof fn joined_units_stand_in_order(nals: Seq<Seq<u8>>)
    ensures
        holds_units(joined_units(nals), nals),
{
    lemma_joined_len(nals);
    assert forall|k: int| 0 <= k < nals.len() implies stands_at(
        joined_units(nals),
        #[trigger] nals[k],
        place_of(nals, k),
    ) by {
        lemma_unit_stands(nals, k);
    }
}

/// Whether no start code stands inside some bytes.
pub open spec fn is_free_of_codes(bs: Seq<u8>) -> bool {
    forall|i: int|
        0 <= i && i + 2 < bs.len() ==> !(#[trigger] bs[i] == 0 && bs[i + 1] == 0 && bs[i + 2] == 1)
}

proof fn lemma_no_code_in_tail(bs: Seq<u8>, i: int)
    requires
        is_free_of_codes(bs),
        0 <= i <= bs.len(),
    ensures
        next_start_code(bs, i) == bs.len(),
    decreases bs.len() - i,
{
    if i < bs.len() {
        assert(start_code_len(bs, i) == 0) by {
            if i + 3 < bs.len() && bs[i] == 0 && bs[i + 1] == 0 && bs[i + 2] == 0 && bs[i + 3]
                == 1 {
                assert(bs[i + 1] == 0);
            }
        }
        lemma_no_code_in_tail(bs, i + 1);
    }
}

proof fn lemma_code_behind(u: Seq<u8>, code: Seq<u8>, rest: Seq<u8>, i: int)
    requires
        is_free_of_codes(u),
        code == seq![0u8, 0u8, 1u8] && (u.len() == 0 || u.last() != 0) || code == seq![
            0u8,
            0u8,
            0u8,
            1u8,
        ],
        0 <= i <= u.len(),
    ensures
        next_start_code(u + code + rest, i) == u.len(),
        start_code_len(u + code + rest, u.len() as int) == code.len(),
    decreases u.len() - i,
{
    let bs = u + code + rest;
    let n = u.len() as int;
    assert(bs[n] == code[0] && bs[n + 1] == code[1] && bs[n + 2] == code[2]);
    assert(code.len() == 4 ==> bs[n + 3] == code[3]);
    if i < n {
        assert(bs[i] == u[i]);
        assert(start_code_len(bs, i) == 0) by {
            if i + 1 < n {
                assert(bs[i + 1] == u[i + 1]);
            }
            if i + 2 < n {
                assert(bs[i + 2] == u[i + 2]);
            }
            if i + 3 < n {
                assert(bs[i + 3] == u[i + 3]);
                assert(!(u[i + 1] == 0 && u[i + 2] == 0 && u[i + 3] == 1));
            }
        }
        lemma_code_behind(u, code, rest, i + 1);
    }
}

/// A stream is cut at every start code, be it of three bytes or of four: what
/// stands before it is a unit if it has at least two bytes and is dropped
/// otherwise, and what stands behind it is taken apart by itself. A stream
/// without a start code is one unit, or none.
pub proof fn streams_are_cut_at_start_codes(u: Seq<u8>, code: Seq<u8>, rest: Seq<u8>)
    requires
        is_free_of_codes(u),
        code == seq![0u8, 0u8, 1u8] && (u.len() == 0 || u.last() != 0) || code == seq![
            0u8,
            0u8,
            0u8,
            1u8,
        ],
    ensures
        u.len() >= 2 ==> units(u) == seq![u] && units(u + code + rest) == seq![u] + units(rest),
        u.len() < 2 ==> units(u).len() == 0 && units(u + code + rest) == units(rest),
{
    let bs = u + code + rest;
    lemma_no_code_in_tail(u, 0);
    lemma_code_behind(u, code, rest, 0);
    assert(bs.take(u.len() as int) =~= u);
    assert(bs.skip(u.len() + code.len() as int) =~= rest);
    assert(units(bs) =~= kept_unit(u) + units(rest));
    assert(Seq::<Seq<u8>>::empty() + units(rest) =~= units(rest));
}

/// What is sent of units comes apart into them again where it arrives, whenever
/// each has at least two bytes and no start code inside.
pub proof fn sent_units_arrive(nals: &[Bytes], sent: Bytes, bs: &[u8], r: Vec<Vec<u8>>)
    requires
        call_ensures(nals_to_sample_data, (nals,), sent),
        bs@ == buffer_bytes(sent),
        call_ensures(split_annex_b, (bs,), r),
        forall|i: int|
            0 <= i < nals@.len() ==> is_clean_unit(#[trigger] buffer_rows(nals@)[i]),
    ensures
        byte_rows(r@) == buffer_rows(nals@),
        holds_units(bs@, buffer_rows(nals@)),
{
    joined_units_come_apart(buffer_rows(nals@));
    joined_units_stand_in_order(buffer_rows(nals@));
}

/// A stream is taken apart as the part before a start code and the part behind
/// it are.
pub proof fn streams_come_apart_at_start_codes(
    whole: &[u8],
    behind: &[u8],
    u: Seq<u8>,
    code: Seq<u8>,
    r: Vec<Vec<u8>>,
    s: Vec<Vec<u8>>,
)
    requires
        call_ensures(split_annex_b, (whole,), r),
        call_ensures(split_annex_b, (behind,), s),
        whole@ == u + code + behind@,
        is_free_of_codes(u),
        code == seq![0u8, 0u8, 1u8] && (u.len() == 0 || u.last() != 0) || code == seq![
            0u8,
            0u8,
            0u8,
            1u8,
        ],
    ensures
        u.len() >= 2 ==> byte_rows(r@) == seq![u] + byte_rows(s@),
        u.len() < 2 ==> byte_rows(r@) == byte_rows(s@),
{
    streams_are_cut_at_start_codes(u, code, behind@);
}

} // verus!
