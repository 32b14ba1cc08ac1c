//! Pixel memory: rows copied out of and into pitched surfaces, red and blue
//! exchanged, pictures scaled.

use vstd::arithmetic::div_mod::*;
use vstd::arithmetic::mul::*;
use vstd::prelude::*;

verus! {

/// Where the byte at position `i` comes from when red and blue change places in
/// every whole pixel of four bytes.
pub open spec fn swapped_index(len: int, i: int) -> int {
    if i - i % 4 + 4 > len {
        i
    } else if i % 4 == 0 {
        i + 2
    } else if i % 4 == 2 {
        i - 2
    } else {
        i
    }
}

/// Pixel bytes with red and blue exchanged; bytes behind the last whole pixel
/// stay.
pub open spec fn swapped(data: Seq<u8>) -> Seq<u8> {
    Seq::new(data.len(), |i: int| data[swapped_index(data.len() as int, i)])
}

/// Exchanges red and blue in every whole pixel.
pub fn swap_red_blue(data: &mut Vec<u8>)
    ensures
        final(data)@ == swapped(old(data)@),
{
    let n: usize = data.len();
    let mut i: usize = 0;
    let ghost before = data@;
    while n - i >= 4
        invariant
            n == data@.len() == before.len(),
            i <= n,
            i % 4 == 0,
            forall|j: int| 0 <= j < i ==> data@[j] == before[swapped_index(n as int, j)],
            forall|j: int| i <= j < n ==> data@[j] == before[j],
        decreases n - i,
    {
        let red: u8 = data[i];
        let blue: u8 = data[i + 2];
        data.set(i, blue);
        data.set(i + 2, red);
        i = i + 4;
    }
    assert(data@ =~= swapped(before));
}

/// Exchanging red and blue twice gives the picture back.
pub proof fn swapping_twice_restores(data: Seq<u8>)
    ensures
        swapped(swapped(data)) == data,
{
    assert(swapped(swapped(data)) =~= data);
}

/// `rows` stretches of `len` bytes, the first at `offset`, each `pitch` bytes
/// behind the one before, written one after another.
pub open spec fn row_block(src: Seq<u8>, offset: int, pitch: int, len: int, rows: int) -> Seq<u8>
    decreases rows,
{
    if rows <= 0 {
        Seq::empty()
    } else {
        row_block(src, offset, pitch, len, rows - 1) + src.subrange(
            offset + (rows - 1) * pitch,
            offset + (rows - 1) * pitch + len,
        )
    }
}

/// Byte `j` of row `row` of a block is the byte that far into that row of the
/// source.
pub proof fn row_block_bytes(
    src: Seq<u8>,
    offset: int,
    pitch: int,
    len: int,
    rows: int,
    row: int,
    j: int,
)
    requires
        0 <= row < rows,
        0 <= j < len,
        0 <= offset,
        0 <= pitch,
        offset + (rows - 1) * pitch + len <= src.len(),
    ensures
        row_block(src, offset, pitch, len, rows).len() == rows * len,
        0 <= row * len + j < rows * len,
        row_block(src, offset, pitch, len, rows)[row * len + j] == src[offset + row * pitch + j],
    decreases rows,
{
    assert((rows - 2) * pitch <= (rows - 1) * pitch) by (nonlinear_arith)
        requires
            0 <= pitch,
    ;
    row_block_len(src, offset, pitch, len, rows);
    row_block_len(src, offset, pitch, len, rows - 1);
    assert((rows - 1) * len + len == rows * len) by (nonlinear_arith);
    assert(0 <= row * len) by (nonlinear_arith)
        requires
            0 <= row,
            0 < len,
    ;
    assert(row * len <= (rows - 1) * len) by (nonlinear_arith)
        requires
            row <= rows - 1,
            0 < len,
    ;
    assert(0 <= (rows - 1) * pitch) by (nonlinear_arith)
        requires
            1 <= rows,
            0 <= pitch,
    ;
    if row < rows - 1 {
        row_block_bytes(src, offset, pitch, len, rows - 1, row, j);
    }
}

/// A block of rows takes as many bytes as all its rows together.
pub proof fn row_block_len(src: Seq<u8>, offset: int, pitch: int, len: int, rows: int)
    requires
        0 <= rows,
        0 <= len,
        0 <= offset,
        0 <= pitch,
        rows > 0 ==> offset + (rows - 1) * pitch + len <= src.len(),
    ensures
        row_block(src, offset, pitch, len, rows).len() == rows * len,
    decreases rows,
{
    if rows > 0 {
        assert((rows - 1) * len + len == rows * len) by (nonlinear_arith);
        assert((rows - 2) * pitch <= (rows - 1) * pitch) by (nonlinear_arith)
            requires
                0 <= pitch,
        ;
        assert(0 <= (rows - 1) * pitch) by (nonlinear_arith)
            requires
                1 <= rows,
                0 <= pitch,
        ;
        row_block_len(src, offset, pitch, len, rows - 1);
    } else {
        assert(rows * len == 0) by (nonlinear_arith)
            requires
                rows == 0,
        ;
    }
}

/// Copies rows out of pitched memory.
pub fn copy_rows(src: &[u8], offset: usize, pitch: usize, len: usize, rows: usize) -> (r: Vec<u8>)
    requires
        rows > 0 ==> offset + (rows - 1) * pitch + len <= src@.len(),
        rows * len <= usize::MAX,
    ensures
        r@ == row_block(src@, offset as int, pitch as int, len as int, rows as int),
{
    let mut out: Vec<u8> = Vec::new();
    let mut row: usize = 0;
    let n: usize = src.len();
    while row < rows
        invariant
            n == src@.len(),
            row <= rows,
            rows > 0 ==> offset + (rows - 1) * pitch + len <= src@.len(),
            out@ == row_block(src@, offset as int, pitch as int, len as int, row as int),
        decreases rows - row,
    {
        assert(row * pitch <= (rows - 1) * pitch) by (nonlinear_arith)
            requires
                row <= rows - 1,
                0 <= pitch,
        ;
        assert(0 <= row * pitch) by (nonlinear_arith)
            requires
                0 <= row,
                0 <= pitch,
        ;
        let first: usize = offset + row * pitch;
        let ghost before = out@;
        let mut j: usize = 0;
        while j < len
            invariant
                j <= len,
                n == src@.len(),
                first + len <= src@.len(),
                out@ == before + src@.subrange(first as int, first + j),
            decreases len - j,
        {
            out.push(src[first + j]);
            j = j + 1;
        }
        row = row + 1;
    }
    out
}

/// A sequence with a stretch replaced.
pub open spec fn overlay(dst: Seq<u8>, offset: int, row: Seq<u8>) -> Seq<u8> {
    Seq::new(
        dst.len(),
        |i: int|
            if offset <= i < offset + row.len() {
                row[i - offset]
            } else {
                dst[i]
            },
    )
}

/// Memory after `rows` rows of `len` bytes of `src` were written into it, one
/// every `pitch` bytes.
pub open spec fn rows_written(dst: Seq<u8>, pitch: int, src: Seq<u8>, len: int, rows: int) -> Seq<
    u8,
>
    decreases rows,
{
    if rows <= 0 {
        dst
    } else {
        overlay(
            rows_written(dst, pitch, src, len, rows - 1),
            (rows - 1) * pitch,
            src.subrange((rows - 1) * len, (rows - 1) * len + len),
        )
    }
}

/// Copies rows into pitched memory.
pub fn write_rows(dst: &mut [u8], pitch: usize, src: &[u8], len: usize, rows: usize)
    requires
        rows > 0 ==> (rows - 1) * pitch + len <= old(dst)@.len(),
        rows * len <= src@.len(),
    ensures
        final(dst)@ == rows_written(old(dst)@, pitch as int, src@, len as int, rows as int),
{
    let ghost before = dst@;
    let mut row: usize = 0;
    let n: usize = dst.len();
    let m: usize = src.len();
    while row < rows
        invariant
            n == dst@.len() == before.len(),
            m == src@.len(),
            row <= rows,
            rows > 0 ==> (rows - 1) * pitch + len <= n,
            rows * len <= m,
            dst@ == rows_written(before, pitch as int, src@, len as int, row as int),
        decreases rows - row,
    {
        assert(0 <= row * pitch <= (rows - 1) * pitch) by (nonlinear_arith)
            requires
                0 <= row <= rows - 1,
                0 <= pitch,
        ;
        assert(0 <= row * len && row * len + len <= rows * len) by (nonlinear_arith)
            requires
                0 <= row <= rows - 1,
                0 <= len,
        ;
        let to: usize = row * pitch;
        let from: usize = row * len;
        let ghost start = dst@;
        let ghost line = src@.subrange(from as int, from + len);
        let mut j: usize = 0;
        while j < len
            invariant
                n == dst@.len() == start.len(),
                m == src@.len(),
                j <= len,
                to + len <= n,
                from + len <= m,
                line == src@.subrange(from as int, from + len),
                forall|i: int|
                    0 <= i < n ==> #[trigger] dst@[i] == (if to <= i < to + j {
                        line[i - to]
                    } else {
                        start[i]
                    }),
            decreases len - j,
        {
            dst[to + j] = src[from + j];
            j = j + 1;
        }
        assert(dst@ =~= overlay(start, to as int, line));
        row = row + 1;
    }
}

proof fn lemma_rows_written_bytes(
    dst: Seq<u8>,
    pitch: int,
    src: Seq<u8>,
    len: int,
    rows: int,
    row: int,
    j: int,
)
    requires
        0 <= row < rows,
        0 <= j < len <= pitch,
        (rows - 1) * pitch + len <= dst.len(),
        rows * len <= src.len(),
    ensures
        rows_written(dst, pitch, src, len, rows).len() == dst.len(),
        rows_written(dst, pitch, src, len, rows)[row * pitch + j] == src[row * len + j],
    decreases rows,
{
    lemma_rows_written_len(dst, pitch, src, len, rows);
    lemma_rows_written_len(dst, pitch, src, len, rows - 1);
    assert(0 <= row * pitch <= (rows - 1) * pitch) by (nonlinear_arith)
        requires
            0 <= row <= rows - 1,
            0 <= pitch,
    ;
    assert(0 <= row * len && row * len + len <= rows * len) by (nonlinear_arith)
        requires
            0 <= row <= rows - 1,
            0 <= len,
    ;
    assert(0 <= (rows - 1) * len && (rows - 1) * len + len == rows * len) by (nonlinear_arith)
        requires
            0 <= rows - 1,
            0 <= len,
    ;
    if row < rows - 1 {
        assert(row * pitch + pitch <= (rows - 1) * pitch) by (nonlinear_arith)
            requires
                row + 1 <= rows - 1,
                0 <= pitch,
        ;
        assert((rows - 2) * pitch <= (rows - 1) * pitch) by (nonlinear_arith)
            requires
                0 <= pitch,
        ;
        lemma_rows_written_bytes(dst, pitch, src, len, rows - 1, row, j);
    }
}

proof fn lemma_rows_written_len(dst: Seq<u8>, pitch: int, src: Seq<u8>, len: int, rows: int)
    ensures
        rows_written(dst, pitch, src, len, rows).len() == dst.len(),
    decreases rows,
{
    if rows > 0 {
        lemma_rows_written_len(dst, pitch, src, len, rows - 1);
    }
}

/// Rows written into memory whose pitch leaves room for them are read back as
/// they were.
pub proof fn written_rows_read_back(
    dst: Seq<u8>,
    pitch: int,
    src: Seq<u8>,
    len: int,
    rows: int,
)
    requires
        0 < rows,
        0 <= len <= pitch,
        (rows - 1) * pitch + len <= dst.len(),
        rows * len <= src.len(),
    ensures
        row_block(rows_written(dst, pitch, src, len, rows), 0, pitch, len, rows) == src.take(
            rows * len,
        ),
{
    let memory = rows_written(dst, pitch, src, len, rows);
    lemma_rows_written_len(dst, pitch, src, len, rows);
    row_block_len(memory, 0, pitch, len, rows);
    let block = row_block(memory, 0, pitch, len, rows);
    assert(rows * len >= 0) by (nonlinear_arith)
        requires
            0 < rows,
            0 <= len,
    ;
    assert forall|k: int| 0 <= k < rows * len implies #[trigger] block[k] == src[k] by {
        assert(len > 0) by (nonlinear_arith)
            requires
                0 <= len,
                0 <= k < rows * len,
        ;
        let row = k / len;
        let j = k % len;
        lemma_fundamental_div_mod(k, len);
        lemma_mod_bound(k, len);
        assert(0 <= row < rows) by (nonlinear_arith)
            requires
                k == len * row + j,
                0 <= j < len,
                0 <= k < rows * len,
        ;
        assert(len * row == row * len) by (nonlinear_arith);
        row_block_bytes(memory, 0, pitch, len, rows, row, j);
        lemma_rows_written_bytes(dst, pitch, src, len, rows, row, j);
    }
    assert(block =~= src.take(rows * len));
}

/// The position in `from` places that stands for position `p` of `to` places.
pub open spec fn scaled_position(p: int, from: int, to: int) -> int {
    p * from / to
}

proof fn lemma_scaled_position(p: int, from: int, to: int)
    requires
        0 <= p < to,
        0 < from,
    ensures
        0 <= scaled_position(p, from, to) < from,
        scaled_position(p, from, to) <= scaled_position(to - 1, from, to),
{
    assert(0 <= p * from) by (nonlinear_arith)
        requires
            0 <= p,
            0 < from,
    ;
    assert(p * from <= (to - 1) * from && (to - 1) * from < from * to) by (nonlinear_arith)
        requires
            p <= to - 1,
            0 < from,
    ;
    lemma_div_is_ordered(p * from, (to - 1) * from, to);
    lemma_div_pos_is_pos(p * from, to);
    assert(from * to == to * from) by (nonlinear_arith);
    lemma_multiply_divide_lt((to - 1) * from, to, from);
}

/// Where in the source the pixel at `x`, `y` of a scaled picture begins.
pub open spec fn source_offset(x: int, y: int, src_w: int, src_h: int, dst_w: int, dst_h: int) -> int {
    (scaled_position(y, src_h, dst_h) * src_w + scaled_position(x, src_w, dst_w)) * 4
}

/// A picture scaled by taking the nearest pixel above and to the left.
pub open spec fn scaled(src: Seq<u8>, src_w: int, src_h: int, dst_w: int, dst_h: int) -> Seq<u8> {
    if src_w == 0 || src_h == 0 || dst_w == 0 || dst_h == 0 {
        Seq::empty()
    } else {
        Seq::new(
            (dst_w * dst_h * 4) as nat,
            |k: int|
                src[source_offset(k / 4 % dst_w, k / 4 / dst_w, src_w, src_h, dst_w, dst_h) + k
                    % 4],
        )
    }
}

proof fn lemma_source_offset(
    x: int,
    y: int,
    src_w: int,
    src_h: int,
    dst_w: int,
    dst_h: int,
)
    requires
        0 <= x < dst_w,
        0 <= y < dst_h,
        0 < src_w,
        0 < src_h,
    ensures
        0 <= source_offset(x, y, src_w, src_h, dst_w, dst_h) <= source_offset(
            dst_w - 1,
            dst_h - 1,
            src_w,
            src_h,
            dst_w,
            dst_h,
        ),
        0 <= scaled_position(y, src_h, dst_h) * src_w,
        scaled_position(y, src_h, dst_h) * src_w * 4 <= source_offset(
            x,
            y,
            src_w,
            src_h,
            dst_w,
            dst_h,
        ),
{
    lemma_scaled_position(x, src_w, dst_w);
    lemma_scaled_position(y, src_h, dst_h);
    lemma_scaled_position(dst_w - 1, src_w, dst_w);
    lemma_scaled_position(dst_h - 1, src_h, dst_h);
    let a = scaled_position(y, src_h, dst_h);
    let b = scaled_position(dst_h - 1, src_h, dst_h);
    assert(0 <= a * src_w <= b * src_w) by (nonlinear_arith)
        requires
            0 <= a <= b,
            0 < src_w,
    ;
}

/// Scales a picture of four bytes per pixel.
pub fn scale_rgba(src: &[u8], src_w: u32, src_h: u32, dst_w: u32, dst_h: u32) -> (r: Vec<u8>)
    requires
        src_w > 0 && src_h > 0 && dst_w > 0 && dst_h > 0 ==> {
            let last = source_offset(
                dst_w - 1,
                dst_h - 1,
                src_w as int,
                src_h as int,
                dst_w as int,
                dst_h as int,
            );
            dst_w * dst_h * 4 <= u32::MAX && last <= u32::MAX && last + 4 <= src@.len()
        },
    ensures
        r@ == scaled(src@, src_w as int, src_h as int, dst_w as int, dst_h as int),
{
    let mut dst: Vec<u8> = Vec::new();
    if src_w == 0 || src_h == 0 || dst_w == 0 || dst_h == 0 {
        return dst;
    }
    let ghost whole = scaled(src@, src_w as int, src_h as int, dst_w as int, dst_h as int);
    let n: usize = src.len();
    let mut y: u32 = 0;
    assert(0 <= dst_w * dst_h) by (nonlinear_arith);
    while y < dst_h
        invariant
            0 < src_w,
            0 < src_h,
            0 < dst_w,
            y <= dst_h,
            n == src@.len(),
            whole == scaled(src@, src_w as int, src_h as int, dst_w as int, dst_h as int),
            source_offset(
                dst_w - 1,
                dst_h - 1,
                src_w as int,
                src_h as int,
                dst_w as int,
                dst_h as int,
            ) <= u32::MAX,
            source_offset(
                dst_w - 1,
                dst_h - 1,
                src_w as int,
                src_h as int,
                dst_w as int,
                dst_h as int,
            ) + 4 <= n,
            dst@.len() == y * dst_w * 4,
            0 <= y * dst_w <= dst_w * dst_h,
            forall|k: int| 0 <= k < dst@.len() ==> #[trigger] dst@[k] == whole[k],
        decreases dst_h - y,
    {
        assert(y as u64 * src_h as u64 <= 0xffff_ffff * 0xffff_ffff) by (nonlinear_arith)
            requires
                0 <= y <= 0xffff_ffff,
                0 <= src_h <= 0xffff_ffff,
        ;
        let sy: u64 = (y as u64 * src_h as u64) / dst_h as u64;
        proof {
            lemma_scaled_position(y as int, src_h as int, dst_h as int);
        }
        assert(sy == scaled_position(y as int, src_h as int, dst_h as int));
        assert(y * dst_w + dst_w <= dst_w * dst_h && (y + 1) * dst_w == y * dst_w + dst_w)
            by (nonlinear_arith)
            requires
                0 <= y < dst_h,
                0 < dst_w,
        ;
        let mut x: u32 = 0;
        while x < dst_w
            invariant
                0 < src_w,
                0 < src_h,
                0 < dst_w,
                x <= dst_w,
                y < dst_h,
                n == src@.len(),
                sy == scaled_position(y as int, src_h as int, dst_h as int),
                0 <= sy < src_h,
                0 <= y * dst_w,
                y * dst_w + dst_w <= dst_w * dst_h,
                whole == scaled(src@, src_w as int, src_h as int, dst_w as int, dst_h as int),
                source_offset(
                    dst_w - 1,
                    dst_h - 1,
                    src_w as int,
                    src_h as int,
                    dst_w as int,
                    dst_h as int,
                ) <= u32::MAX,
                source_offset(
                    dst_w - 1,
                    dst_h - 1,
                    src_w as int,
                    src_h as int,
                    dst_w as int,
                    dst_h as int,
                ) + 4 <= n,
                dst@.len() == (y * dst_w + x) * 4,
                forall|k: int| 0 <= k < dst@.len() ==> #[trigger] dst@[k] == whole[k],
            decreases dst_w - x,
        {
            assert(x as u64 * src_w as u64 <= 0xffff_ffff * 0xffff_ffff) by (nonlinear_arith)
                requires
                    0 <= x <= 0xffff_ffff,
                    0 <= src_w <= 0xffff_ffff,
            ;
            let sx: u64 = (x as u64 * src_w as u64) / dst_w as u64;
            proof {
                lemma_scaled_position(x as int, src_w as int, dst_w as int);
                lemma_source_offset(
                    x as int,
                    y as int,
                    src_w as int,
                    src_h as int,
                    dst_w as int,
                    dst_h as int,
                );
            }
            let line: u64 = sy * src_w as u64;
            let si: usize = ((line + sx) * 4) as usize;
            let ghost p = y * dst_w + x;
            assert(si == source_offset(
                x as int,
                y as int,
                src_w as int,
                src_h as int,
                dst_w as int,
                dst_h as int,
            ));
            assert(p / dst_w as int == y && p % dst_w as int == x) by {
                lemma_fundamental_div_mod_converse(p, dst_w as int, y as int, x as int);
            }
            assert(whole.len() == dst_w * dst_h * 4);
            dst.push(src[si]);
            dst.push(src[si + 1]);
            dst.push(src[si + 2]);
            dst.push(src[si + 3]);
            x = x + 1;
        }
        y = y + 1;
    }
    assert(dst_h * dst_w == dst_w * dst_h) by (nonlinear_arith);
    assert(dst@ =~= whole);
    dst
}

/// A picture scaled to its own size stays as it is.
pub proof fn scaling_to_own_size_keeps(src: Seq<u8>, w: int, h: int)
    requires
        0 < w,
        0 < h,
        src.len() == w * h * 4,
    ensures
        scaled(src, w, h, w, h) == src,
{
    let s = scaled(src, w, h, w, h);
    assert forall|k: int| 0 <= k < src.len() implies #[trigger] s[k] == src[k] by {
        let p = k / 4;
        let x = p % w;
        let y = p / w;
        lemma_fundamental_div_mod(p, w);
        lemma_mod_bound(p, w);
        lemma_div_multiples_vanish(x, w);
        lemma_div_multiples_vanish(y, h);
        assert(x * w == w * x && y * h == h * y && w * y == y * w) by (nonlinear_arith);
        assert(scaled_position(x, w, w) == x);
        assert(scaled_position(y, h, h) == y);
    }
    assert(s =~= src);
}

/// The red, green, blue and alpha bytes of a pixel whose lowest byte is red.
pub open spec fn channels(p: u32) -> (int, int, int, int) {
    (p as int % 256, p as int / 256 % 256, p as int / 65536 % 256, p as int / 16777216)
}

/// A pixel as device-independent bitmaps keep it: blue lowest, red third.
pub fn dib_pixel(p: u32) -> (q: u32)
    ensures
        channels(q) == (channels(p).2, channels(p).1, channels(p).0, channels(p).3),
{
    let r: u32 = p & 0xFF;
    let g: u32 = (p >> 8) & 0xFF;
    let b: u32 = (p >> 16) & 0xFF;
    let a: u32 = (p >> 24) & 0xFF;
    let q: u32 = (a << 24) | (r << 16) | (g << 8) | b;
    assert(q % 256 == p / 65536 % 256 && q / 256 % 256 == p / 256 % 256 && q / 65536 % 256 == p
        % 256 && q / 16777216 == p / 16777216) by (bit_vector)
        requires
            q == (((p >> 24) & 0xFF) << 24) | ((p & 0xFF) << 16) | (((p >> 8) & 0xFF) << 8) | ((p
                >> 16) & 0xFF),
    ;
    q
}

/// Turns a picture into bitmap pixels.
pub fn dib_pixels(pixels: &[u32]) -> (r: Vec<u32>)
    ensures
        r@.len() == pixels@.len(),
        forall|i: int|
            0 <= i < pixels@.len() ==> channels(#[trigger] r@[i]) == (
                channels(pixels@[i]).2,
                channels(pixels@[i]).1,
                channels(pixels@[i]).0,
                channels(pixels@[i]).3,
            ),
{
    let mut out: Vec<u32> = Vec::new();
    let mut i: usize = 0;
    while i < pixels.len()
        invariant
            i <= pixels@.len(),
            out@.len() == i,
            forall|j: int|
                0 <= j < i ==> channels(#[trigger] out@[j]) == (
                    channels(pixels@[j]).2,
                    channels(pixels@[j]).1,
                    channels(pixels@[j]).0,
                    channels(pixels@[j]).3,
                ),
        decreases pixels@.len() - i,
    {
        out.push(dib_pixel(pixels[i]));
        i = i + 1;
    }
    out
}

/// Red and blue change places in every whole pixel, green and alpha stay, and so
/// does what is no whole pixel.
pub proof fn red_and_blue_change_places(data: &&mut Vec<u8>, before: Seq<u8>, after: Seq<u8>, p: int)
    requires
        call_ensures(swap_red_blue, (*data,), ()),
        before == (**data)@,
        after == final(*data)@,
        0 <= p,
    ensures
        after.len() == before.len(),
        4 * p + 4 <= before.len() ==> {
            &&& after[4 * p] == before[4 * p + 2]
            &&& after[4 * p + 1] == before[4 * p + 1]
            &&& after[4 * p + 2] == before[4 * p]
            &&& after[4 * p + 3] == before[4 * p + 3]
        },
        before.len() - before.len() % 4 <= p < before.len() ==> after[p] == before[p],
{
}

/// A copied byte is the byte that far into that row of the source.
pub proof fn copied_rows_are_those_of_the_source(
    src: &[u8],
    offset: usize,
    pitch: usize,
    len: usize,
    rows: usize,
    r: Vec<u8>,
    row: int,
    j: int,
)
    requires
        call_ensures(copy_rows, (src, offset, pitch, len, rows), r),
        offset + (rows - 1) * pitch + len <= src@.len(),
        0 <= row < rows,
        0 <= j < len,
    ensures
        r@.len() == rows * len,
        r@[row * len + j] == src@[offset + row * pitch + j],
{
    row_block_bytes(
        src@,
        offset as int,
        pitch as int,
        len as int,
        rows as int,
        row,
        j,
    );
}

proof fn lemma_rows_written_gaps(
    dst: Seq<u8>,
    pitch: int,
    src: Seq<u8>,
    len: int,
    rows: int,
    i: int,
)
    requires
        0 <= rows,
        0 <= len,
        0 <= pitch,
        rows > 0 ==> (rows - 1) * pitch + len <= dst.len(),
        rows * len <= src.len(),
        0 <= i < dst.len(),
        forall|row: int| 0 <= row < rows ==> !(#[trigger] (row * pitch) <= i < row * pitch + len),
    ensures
        rows_written(dst, pitch, src, len, rows)[i] == dst[i],
    decreases rows,
{
    if rows > 0 {
        lemma_rows_written_len(dst, pitch, src, len, rows - 1);
        assert((rows - 1) * len + len == rows * len && 0 <= (rows - 1) * len) by (nonlinear_arith)
            requires
                0 <= rows - 1,
                0 <= len,
        ;
        assert((rows - 2) * pitch <= (rows - 1) * pitch) by (nonlinear_arith)
            requires
                0 <= pitch,
        ;
        let top = rows - 1;
        assert(!(top * pitch <= i < top * pitch + len));
        lemma_rows_written_gaps(dst, pitch, src, len, rows - 1, i);
    }
}

/// Rows that are written stand one every pitch; what lies between them and
/// behind them stays.
pub proof fn rows_stand_at_their_pitch(
    before: Seq<u8>,
    pitch: int,
    src: Seq<u8>,
    len: int,
    rows: int,
    row: int,
    j: int,
    gap: int,
)
    requires
        0 < len <= pitch,
        (rows - 1) * pitch + len <= before.len(),
        rows * len <= src.len(),
        0 <= row < rows,
        0 <= j < len,
        0 <= gap < before.len(),
        gap / pitch >= rows || gap % pitch >= len,
    ensures
        rows_written(before, pitch, src, len, rows).len() == before.len(),
        rows_written(before, pitch, src, len, rows)[row * pitch + j] == src[row * len + j],
        rows_written(before, pitch, src, len, rows)[gap] == before[gap],
{
    lemma_rows_written_bytes(before, pitch, src, len, rows, row, j);
    assert forall|k: int| 0 <= k < rows implies !(#[trigger] (k * pitch) <= gap < k * pitch + len) by {
        if k * pitch <= gap < k * pitch + len {
            lemma_fundamental_div_mod_converse(gap, pitch, k, gap - k * pitch);
        }
    }
    lemma_rows_written_gaps(before, pitch, src, len, rows, gap);
}

/// The same of the function that writes them.
pub proof fn written_rows_stand_at_their_pitch(
    dst: &&mut [u8],
    before: Seq<u8>,
    after: Seq<u8>,
    pitch: usize,
    src: &[u8],
    len: usize,
    rows: usize,
    row: int,
    j: int,
    gap: int,
)
    requires
        call_ensures(write_rows, (*dst, pitch, src, len, rows), ()),
        before == (**dst)@,
        after == final(*dst)@,
        0 < len <= pitch,
        (rows - 1) * pitch + len <= before.len(),
        rows * len <= src@.len(),
        0 <= row < rows,
        0 <= j < len,
        0 <= gap < before.len(),
        gap / (pitch as int) >= rows || gap % (pitch as int) >= len,
    ensures
        after.len() == before.len(),
        after[row * pitch + j] == src@[row * len + j],
        after[gap] == before[gap],
{
    rows_stand_at_their_pitch(
        before,
        pitch as int,
        src@,
        len as int,
        rows as int,
        row,
        j,
        gap,
    );
}

/// Every pixel of a scaled picture is that of the source which it falls on: the
/// one in the column and the row that its own column and row reach when they
/// are stretched to the size of the source.
pub proof fn scaled_pixels_fall_on_the_source(
    src: &[u8],
    src_w: u32,
    src_h: u32,
    dst_w: u32,
    dst_h: u32,
    r: Vec<u8>,
    x: int,
    y: int,
    column: int,
    row: int,
    c: int,
)
    requires
        call_ensures(scale_rgba, (src, src_w, src_h, dst_w, dst_h), r),
        0 < src_w,
        0 < src_h,
        0 <= x < dst_w,
        0 <= y < dst_h,
        column * dst_w <= x * src_w < (column + 1) * dst_w,
        row * dst_h <= y * src_h < (row + 1) * dst_h,
        0 <= c < 4,
    ensures
        r@.len() == dst_w * dst_h * 4,
        r@[(y * dst_w + x) * 4 + c] == src@[(row * src_w + column) * 4 + c],
{
    let w = dst_w as int;
    let h = dst_h as int;
    let p = y * w + x;
    assert((column + 1) * w == column * w + w && (row + 1) * h == row * h + h)
        by (nonlinear_arith);
    lemma_fundamental_div_mod_converse(x * src_w, w, column, x * src_w - column * w);
    lemma_fundamental_div_mod_converse(y * src_h, h, row, y * src_h - row * h);
    lemma_fundamental_div_mod_converse(p, w, y, x);
    assert(0 <= p && p + 1 <= w * h) by (nonlinear_arith)
        requires
            p == y * w + x,
            0 <= x < w,
            0 <= y < h,
    ;
    assert(w * h * 4 >= 0);
}

proof fn lemma_channels_make_the_pixel(p: u32)
    ensures
        p as int == channels(p).0 + channels(p).1 * 0x100 + channels(p).2 * 0x1_0000 + channels(
            p,
        ).3 * 0x100_0000,
{
    let n = p as int;
    assert(n / 0x100 / 0x100 == n / 0x1_0000);
    assert(n / 0x1_0000 / 0x100 == n / 0x100_0000);
}

/// A bitmap pixel is the pixel with its red and its blue byte exchanged, and
/// turned twice it is the pixel again.
pub proof fn bitmap_pixels_exchange_red_and_blue(p: u32, q: u32, again: u32)
    requires
        call_ensures(dib_pixel, (p,), q),
        call_ensures(dib_pixel, (q,), again),
    ensures
        q % 256 == p / 0x1_0000 % 256,
        q / 0x100 % 256 == p / 0x100 % 256,
        q / 0x1_0000 % 256 == p % 256,
        q / 0x100_0000 == p / 0x100_0000,
        again == p,
{
    assert(channels(q) == (channels(p).2, channels(p).1, channels(p).0, channels(p).3));
    assert(channels(again) == channels(p));
    lemma_channels_make_the_pixel(p);
    lemma_channels_make_the_pixel(again);
}

/// A picture is turned into bitmap pixels one by one, in order.
pub proof fn bitmaps_are_turned_pixel_by_pixel(pixels: &[u32], r: Vec<u32>, i: int)
    requires
        call_ensures(dib_pixels, (pixels,), r),
        0 <= i < pixels@.len(),
    ensures
        r@.len() == pixels@.len(),
        r@[i] % 256 == pixels@[i] / 0x1_0000 % 256,
        r@[i] / 0x100 % 256 == pixels@[i] / 0x100 % 256,
        r@[i] / 0x1_0000 % 256 == pixels@[i] % 256,
        r@[i] / 0x100_0000 == pixels@[i] / 0x100_0000,
{
    assert(channels(r@[i]).0 == channels(pixels@[i]).2);
}

} // verus!
