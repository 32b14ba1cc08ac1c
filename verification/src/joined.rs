//! All monitors in one picture.

use vstd::prelude::*;

use crate::capture::{CaptureError, Frame, Rect};
use crate::dxgi::{evened, AttachedOutput};
use crate::pixels::{copy_rows, row_block_bytes, row_block_len};

verus! {

/// Whether a rectangle has no edge on the wrong side.
pub open spec fn is_proper(r: Rect) -> bool {
    r.left <= r.right && r.top <= r.bottom
}

/// The smallest rectangle that holds two.
pub open spec fn union(a: Rect, b: Rect) -> Rect {
    Rect {
        left: if a.left <= b.left {
            a.left
        } else {
            b.left
        },
        top: if a.top <= b.top {
            a.top
        } else {
            b.top
        },
        right: if a.right >= b.right {
            a.right
        } else {
            b.right
        },
        bottom: if a.bottom >= b.bottom {
            a.bottom
        } else {
            b.bottom
        },
    }
}

/// The smallest rectangle that holds all.
pub open spec fn bounding(rects: Seq<Rect>) -> Rect
    decreases rects.len(),
{
    if rects.len() == 0 {
        Rect { left: 0, top: 0, right: 0, bottom: 0 }
    } else if rects.len() == 1 {
        rects[0]
    } else {
        union(bounding(rects.drop_last()), rects.last())
    }
}

/// Whether a rectangle lies within another.
pub open spec fn lies_in(r: Rect, outer: Rect) -> bool {
    outer.left <= r.left && outer.top <= r.top && r.right <= outer.right && r.bottom <= outer.bottom
}

/// The bounding rectangle holds all rectangles, and lies in every other that
/// does.
pub proof fn bounding_is_the_smallest(rects: Seq<Rect>, outer: Rect)
    requires
        rects.len() > 0,
    ensures
        forall|i: int| 0 <= i < rects.len() ==> lies_in(#[trigger] rects[i], bounding(rects)),
        (forall|i: int| 0 <= i < rects.len() ==> lies_in(#[trigger] rects[i], outer)) ==> lies_in(
            bounding(rects),
            outer,
        ),
    decreases rects.len(),
{
    if rects.len() > 1 {
        let fewer = rects.drop_last();
        bounding_is_the_smallest(fewer, outer);
        assert forall|i: int| 0 <= i < rects.len() implies lies_in(
            #[trigger] rects[i],
            bounding(rects),
        ) by {
            if i < fewer.len() {
                assert(lies_in(fewer[i], bounding(fewer)));
            }
        }
        if forall|i: int| 0 <= i < rects.len() ==> lies_in(#[trigger] rects[i], outer) {
            assert forall|i: int| 0 <= i < fewer.len() implies lies_in(#[trigger] fewer[i], outer) by {
                assert(lies_in(rects[i], outer));
            }
            assert(lies_in(rects[rects.len() - 1], outer));
        }
    } else {
        assert((forall|i: int| 0 <= i < rects.len() ==> lies_in(#[trigger] rects[i], outer))
            ==> lies_in(rects[0], outer));
    }
}

proof fn lemma_bounding_is_proper(rects: Seq<Rect>)
    requires
        forall|i: int| 0 <= i < rects.len() ==> is_proper(#[trigger] rects[i]),
    ensures
        is_proper(bounding(rects)),
{
    if rects.len() > 0 {
        bounding_is_the_smallest(rects, bounding(rects));
        assert(is_proper(rects[0]));
        assert(lies_in(rects[0], bounding(rects)));
    }
}

/// Where a byte of the pixel in column `x` and row `y` stands in a picture that
/// is `width` pixels wide.
pub open spec fn offset_of(width: int, x: int, y: int, c: int) -> int {
    (y * width + x) * 4 + c
}

/// A byte of the pixel in column `x` and row `y` of a frame.
pub open spec fn byte_at(frame: Frame, x: int, y: int, c: int) -> u8 {
    frame.data@[offset_of(frame.width as int, x, y, c)]
}

/// Whether a column and a row are in a frame, and a byte in a pixel.
pub open spec fn is_in(frame: Frame, x: int, y: int, c: int) -> bool {
    0 <= x < frame.width && 0 <= y < frame.height && 0 <= c < 4
}

/// Whether a frame shows exactly a rectangle of the desktop.
pub open spec fn shows(frame: Frame, place: Rect) -> bool {
    &&& frame.width == place.right - place.left
    &&& frame.height == place.bottom - place.top
    &&& frame.is_full()
}

/// Whether a rectangle covers a point of the desktop.
pub open spec fn covers(place: Rect, x: int, y: int) -> bool {
    place.left <= x < place.right && place.top <= y < place.bottom
}

/// Where parts of a picture lie.
pub open spec fn part_rects(parts: Seq<(Rect, Frame)>) -> Seq<Rect> {
    parts.map_values(|part: (Rect, Frame)| part.0)
}

/// A byte of what is seen at a point of the desktop: of the last part that
/// covers the point, and zero where none does.
pub open spec fn joined_byte(parts: Seq<(Rect, Frame)>, x: int, y: int, c: int) -> u8
    decreases parts.len(),
{
    if parts.len() == 0 {
        0
    } else if covers(parts.last().0, x, y) {
        byte_at(parts.last().1, x - parts.last().0.left, y - parts.last().0.top, c)
    } else {
        joined_byte(parts.drop_last(), x, y, c)
    }
}

/// Where one part alone covers a point, that part is seen there.
pub proof fn parts_are_seen(parts: Seq<(Rect, Frame)>, i: int, x: int, y: int, c: int)
    requires
        0 <= i < parts.len(),
        covers(parts[i].0, x, y),
        forall|j: int| 0 <= j < parts.len() && j != i ==> !covers((#[trigger] parts[j]).0, x, y),
    ensures
        joined_byte(parts, x, y, c) == byte_at(
            parts[i].1,
            x - parts[i].0.left,
            y - parts[i].0.top,
            c,
        ),
    decreases parts.len(),
{
    if i < parts.len() - 1 {
        assert(!covers(parts[parts.len() - 1].0, x, y));
        parts_are_seen(parts.drop_last(), i, x, y, c);
    }
}

/// Where no part covers a point, nothing is seen there.
pub proof fn gaps_are_black(parts: Seq<(Rect, Frame)>, x: int, y: int, c: int)
    requires
        forall|j: int| 0 <= j < parts.len() ==> !covers((#[trigger] parts[j]).0, x, y),
    ensures
        joined_byte(parts, x, y, c) == 0,
    decreases parts.len(),
{
    if parts.len() > 0 {
        assert(!covers(parts[parts.len() - 1].0, x, y));
        gaps_are_black(parts.drop_last(), x, y, c);
    }
}

/// Whether a frame shows all of the desktop that parts of it make up.
pub open spec fn joins(frame: Frame, parts: Seq<(Rect, Frame)>) -> bool {
    let b = bounding(part_rects(parts));
    &&& shows(frame, b)
    &&& forall|x: int, y: int, c: int|
        is_in(frame, x, y, c) ==> #[trigger] byte_at(frame, x, y, c) == joined_byte(
            parts,
            b.left + x,
            b.top + y,
            c,
        )
}

/// Whether a picture of a rectangle can be kept in memory.
pub open spec fn can_be_kept(place: Rect) -> bool {
    (place.right - place.left) * (place.bottom - place.top) * 4 <= usize::MAX
}

proof fn lemma_offset_before(w: int, x: int, y: int, px: int, py: int, c: int)
    requires
        0 <= px < w,
        0 <= py,
        0 <= c < 4,
        0 <= x,
        py < y || (py == y && px < x),
    ensures
        0 <= offset_of(w, px, py, c) < (y * w + x) * 4,
{
    assert(0 <= py * w) by (nonlinear_arith)
        requires
            0 <= py,
            0 < w,
    ;
    if py < y {
        assert(py * w + w <= y * w) by (nonlinear_arith)
            requires
                py + 1 <= y,
                0 < w,
        ;
    }
}

fn bounds_of(parts: &Vec<(Rect, Frame)>) -> (r: Rect)
    ensures
        r == bounding(part_rects(parts@)),
{
    let ghost rects = part_rects(parts@);
    if parts.len() == 0 {
        return Rect { left: 0, top: 0, right: 0, bottom: 0 };
    }
    let mut b: Rect = parts[0].0;
    let mut i: usize = 1;
    assert(rects.take(1)[0] == rects[0]);
    while i < parts.len()
        invariant
            1 <= i <= parts@.len(),
            rects == part_rects(parts@),
            b == bounding(rects.take(i as int)),
        decreases parts@.len() - i,
    {
        let p: Rect = parts[i].0;
        assert(rects.take(i + 1).drop_last() == rects.take(i as int));
        assert(rects.take(i + 1).last() == p);
        b = Rect {
            left: if b.left <= p.left {
                b.left
            } else {
                p.left
            },
            top: if b.top <= p.top {
                b.top
            } else {
                p.top
            },
            right: if b.right >= p.right {
                b.right
            } else {
                p.right
            },
            bottom: if b.bottom >= p.bottom {
                b.bottom
            } else {
                p.bottom
            },
        };
        i = i + 1;
    }
    assert(rects.take(i as int) == rects);
    b
}

/// The four bytes of what is seen at a point of the desktop.
pub open spec fn joined_pixel(parts: Seq<(Rect, Frame)>, x: int, y: int) -> Seq<u8> {
    Seq::new(4, |c: int| joined_byte(parts, x, y, c))
}

fn push_pixel(out: &mut Vec<u8>, parts: &Vec<(Rect, Frame)>, x: i64, y: i64)
    requires
        forall|i: int| 0 <= i < parts@.len() ==> shows((#[trigger] parts@[i]).1, parts@[i].0),
    ensures
        final(out)@ == old(out)@ + joined_pixel(parts@, x as int, y as int),
{
    let ghost before = out@;
    let mut i: usize = parts.len();
    assert(parts@.take(i as int) == parts@);
    while i > 0
        invariant
            i <= parts@.len(),
            forall|i: int| 0 <= i < parts@.len() ==> shows((#[trigger] parts@[i]).1, parts@[i].0),
            before == old(out)@,
            out@ == before,
            joined_pixel(parts@, x as int, y as int) == joined_pixel(
                parts@.take(i as int),
                x as int,
                y as int,
            ),
        decreases i,
    {
        i = i - 1;
        let ghost upto = parts@.take(i + 1);
        assert(upto.drop_last() == parts@.take(i as int));
        assert(upto.last() == parts@[i as int]);
        let part: &(Rect, Frame) = &parts[i];
        let p: Rect = part.0;
        if p.left as i64 <= x && x < p.right as i64 && p.top as i64 <= y && y < p.bottom as i64 {
            assert(shows(part.1, p));
            let w: usize = part.1.width as usize;
            let dx: usize = (x - p.left as i64) as usize;
            let dy: usize = (y - p.top as i64) as usize;
            let total: usize = part.1.data.len();
            assert(0 <= dy * w && dy * w + w <= w * part.1.height) by (nonlinear_arith)
                requires
                    0 <= dy < part.1.height,
                    0 <= w,
            ;
            let at: usize = (dy * w + dx) * 4;
            out.push(part.1.data[at]);
            out.push(part.1.data[at + 1]);
            out.push(part.1.data[at + 2]);
            out.push(part.1.data[at + 3]);
            assert(out@ =~= before + joined_pixel(parts@, x as int, y as int));
            return;
        }
        assert(joined_pixel(upto, x as int, y as int) =~= joined_pixel(
            parts@.take(i as int),
            x as int,
            y as int,
        ));
    }
    out.push(0);
    out.push(0);
    out.push(0);
    out.push(0);
    assert(out@ =~= before + joined_pixel(parts@, x as int, y as int));
}

/// Joins parts of the desktop to one picture of the rectangle that they make
/// up.
pub fn join_frames(parts: &Vec<(Rect, Frame)>) -> (r: Frame)
    requires
        forall|i: int| 0 <= i < parts@.len() ==> shows((#[trigger] parts@[i]).1, parts@[i].0),
        can_be_kept(bounding(part_rects(parts@))),
    ensures
        joins(r, parts@),
{
    let b: Rect = bounds_of(parts);
    proof {
        let rects = part_rects(parts@);
        assert forall|i: int| 0 <= i < rects.len() implies is_proper(#[trigger] rects[i]) by {
            assert(shows(parts@[i].1, parts@[i].0));
        }
        lemma_bounding_is_proper(rects);
    }
    let w: u32 = (b.right as i64 - b.left as i64) as u32;
    let h: u32 = (b.bottom as i64 - b.top as i64) as u32;
    let mut out: Vec<u8> = Vec::new();
    let mut y: u32 = 0;
    while y < h
        invariant
            y <= h,
            w == b.right - b.left,
            h == b.bottom - b.top,
            forall|i: int| 0 <= i < parts@.len() ==> shows((#[trigger] parts@[i]).1, parts@[i].0),
            out@.len() == y * w * 4,
            forall|px: int, py: int, c: int|
                0 <= px < w && 0 <= py < y && 0 <= c < 4 ==> out@[#[trigger] offset_of(
                    w as int,
                    px,
                    py,
                    c,
                )] == joined_byte(parts@, b.left + px, b.top + py, c),
        decreases h - y,
    {
        let mut x: u32 = 0;
        while x < w
            invariant
                y < h,
                x <= w,
                w == b.right - b.left,
                h == b.bottom - b.top,
                forall|i: int|
                    0 <= i < parts@.len() ==> shows((#[trigger] parts@[i]).1, parts@[i].0),
                out@.len() == (y * w + x) * 4,
                forall|px: int, py: int, c: int|
                    0 <= px < w && 0 <= py && (py < y || (py == y && px < x)) && 0 <= c < 4
                        ==> out@[#[trigger] offset_of(w as int, px, py, c)] == joined_byte(
                        parts@,
                        b.left + px,
                        b.top + py,
                        c,
                    ),
            decreases w - x,
        {
            let ghost before = out@;
            push_pixel(&mut out, parts, b.left as i64 + x as i64, b.top as i64 + y as i64);
            assert forall|px: int, py: int, c: int|
                0 <= px < w && 0 <= py && (py < y || (py == y && px < x + 1)) && 0 <= c
                    < 4 implies out@[#[trigger] offset_of(w as int, px, py, c)] == joined_byte(
                parts@,
                b.left + px,
                b.top + py,
                c,
            ) by {
                if py < y || px < x {
                    lemma_offset_before(w as int, x as int, y as int, px, py, c);
                    assert(out@[offset_of(w as int, px, py, c)] == before[offset_of(
                        w as int,
                        px,
                        py,
                        c,
                    )]);
                } else {
                    assert(offset_of(w as int, px, py, c) == before.len() + c);
                }
            }
            x = x + 1;
        }
        assert(y * w + w == (y + 1) * w) by (nonlinear_arith);
        y = y + 1;
    }
    assert(h * w == w * h) by (nonlinear_arith);
    let r: Frame = Frame { width: w, height: h, data: out };
    assert forall|x: int, y: int, c: int| is_in(r, x, y, c) implies #[trigger] byte_at(r, x, y, c)
        == joined_byte(parts@, b.left + x, b.top + y, c) by {
        assert(r.data@[offset_of(w as int, x, y, c)] == joined_byte(
            parts@,
            b.left + x,
            b.top + y,
            c,
        ));
    }
    r
}

/// Whether a frame is another one cut to even sizes.
pub open spec fn is_cut(cut: Frame, frame: Frame) -> bool {
    &&& cut.width == evened(frame.width as int)
    &&& cut.height == evened(frame.height as int)
    &&& cut.is_full()
    &&& forall|x: int, y: int, c: int|
        is_in(cut, x, y, c) ==> #[trigger] byte_at(cut, x, y, c) == byte_at(frame, x, y, c)
}

/// Cuts a frame to even sizes, which the encoder needs: an odd one loses its
/// last row or column.
pub fn cut_to_even(frame: Frame) -> (r: Frame)
    requires
        frame.is_full(),
    ensures
        is_cut(r, frame),
{
    let w: u32 = frame.width;
    let h: u32 = frame.height;
    if w % 2 == 0 && h % 2 == 0 {
        return frame;
    }
    let ew: u32 = w - w % 2;
    let eh: u32 = h - h % 2;
    if ew == 0 || eh == 0 {
        let data: Vec<u8> = Vec::new();
        assert(ew * eh * 4 == 0) by (nonlinear_arith)
            requires
                ew == 0 || eh == 0,
        ;
        return Frame { width: ew, height: eh, data };
    }
    let total: usize = frame.data.len();
    assert((eh - 1) * (w * 4) + ew * 4 <= w * h * 4 && eh * (ew * 4) <= w * h * 4 && w * 4 <= w * h
        * 4) by (nonlinear_arith)
        requires
            1 <= eh <= h,
            1 <= ew <= w,
    ;
    let pitch: usize = w as usize * 4;
    let len: usize = ew as usize * 4;
    let data: Vec<u8> = copy_rows(frame.data.as_slice(), 0, pitch, len, eh as usize);
    let r: Frame = Frame { width: ew, height: eh, data };
    proof {
        row_block_len(frame.data@, 0, pitch as int, len as int, eh as int);
        assert(eh * (ew * 4) == ew * eh * 4) by (nonlinear_arith);
        assert forall|x: int, y: int, c: int| is_in(r, x, y, c) implies #[trigger] byte_at(
            r,
            x,
            y,
            c,
        ) == byte_at(frame, x, y, c) by {
            row_block_bytes(
                frame.data@,
                0,
                pitch as int,
                len as int,
                eh as int,
                y,
                x * 4 + c,
            );
            assert(y * (ew * 4) + (x * 4 + c) == (y * ew + x) * 4 + c) by (nonlinear_arith);
            assert(y * (w * 4) + (x * 4 + c) == (y * w + x) * 4 + c) by (nonlinear_arith);
        }
    }
    r
}

/// The capture of all monitors: what was last seen on each, and whether
/// something has changed since the last picture.
pub struct JoinedCapture {
    pub parts: Vec<(Rect, Frame)>,
    pub changed: bool,
}

/// How long a change on the last of several outputs is waited for, in
/// milliseconds, where none of the others has changed.
pub const JOINED_WAIT_MS: u32 = 10;

/// Where outputs lie.
pub open spec fn output_rects(outputs: Seq<AttachedOutput>) -> Seq<Rect> {
    outputs.map_values(|o: AttachedOutput| o.desc.rect)
}

fn black_frame(place: Rect) -> (r: Frame)
    requires
        is_proper(place),
        can_be_kept(place),
    ensures
        shows(r, place),
        forall|i: int| 0 <= i < r.data@.len() ==> #[trigger] r.data@[i] == 0,
{
    let w: u32 = (place.right as i64 - place.left as i64) as u32;
    let h: u32 = (place.bottom as i64 - place.top as i64) as u32;
    assert(w * h <= w * h * 4) by (nonlinear_arith);
    let n: usize = w as usize * h as usize * 4;
    let mut data: Vec<u8> = Vec::new();
    let mut i: usize = 0;
    while i < n
        invariant
            i <= n,
            data@.len() == i,
            forall|j: int| 0 <= j < i ==> #[trigger] data@[j] == 0,
        decreases n - i,
    {
        data.push(0);
        i = i + 1;
    }
    Frame { width: w, height: h, data }
}

impl JoinedCapture {
    /// Whether each part shows its place, and the whole can be kept.
    pub open spec fn wf(&self) -> bool {
        &&& forall|i: int|
            0 <= i < self.parts@.len() ==> shows((#[trigger] self.parts@[i]).1, self.parts@[i].0)
        &&& can_be_kept(bounding(part_rects(self.parts@)))
    }

    /// The capture of all outputs, of which nothing was seen yet.
    pub fn new(outputs: &Vec<AttachedOutput>) -> (r: Self)
        requires
            forall|i: int|
                0 <= i < outputs@.len() ==> is_proper((#[trigger] outputs@[i]).desc.rect),
            can_be_kept(bounding(output_rects(outputs@))),
        ensures
            r.wf(),
            !r.changed,
            part_rects(r.parts@) == output_rects(outputs@),
            forall|i: int, j: int|
                0 <= i < r.parts@.len() && 0 <= j < r.parts@[i].1.data@.len()
                    ==> #[trigger] r.parts@[i].1.data@[j] == 0,
    {
        let ghost rects = output_rects(outputs@);
        let mut parts: Vec<(Rect, Frame)> = Vec::new();
        let mut i: usize = 0;
        while i < outputs.len()
            invariant
                i <= outputs@.len(),
                rects == output_rects(outputs@),
                forall|i: int|
                    0 <= i < outputs@.len() ==> is_proper((#[trigger] outputs@[i]).desc.rect),
                can_be_kept(bounding(rects)),
                parts@.len() == i,
                forall|j: int|
                    0 <= j < i ==> shows((#[trigger] parts@[j]).1, parts@[j].0) && parts@[j].0
                        == rects[j],
                forall|j: int, k: int|
                    0 <= j < i && 0 <= k < parts@[j].1.data@.len()
                        ==> #[trigger] parts@[j].1.data@[k] == 0,
            decreases outputs@.len() - i,
        {
            let place: Rect = outputs[i].desc.rect;
            proof {
                let b = bounding(rects);
                bounding_is_the_smallest(rects, b);
                assert(lies_in(rects[i as int], b));
                let w = place.right - place.left;
                let h = place.bottom - place.top;
                assert(w * h * 4 <= (b.right - b.left) * (b.bottom - b.top) * 4)
                    by (nonlinear_arith)
                    requires
                        0 <= w <= b.right - b.left,
                        0 <= h <= b.bottom - b.top,
                ;
            }
            parts.push((place, black_frame(place)));
            i = i + 1;
        }
        assert(part_rects(parts@) =~= rects);
        JoinedCapture { parts, changed: false }
    }

    /// How long a frame of an output is waited for, in milliseconds, when the
    /// outputs are looked at one after another: only for the last one, and only
    /// where nothing has changed yet.
    pub fn wait_ms(&self, index: usize) -> (r: u32)
        ensures
            r == (if index + 1 == self.parts@.len() && !self.changed {
                JOINED_WAIT_MS
            } else {
                0
            }),
    {
        let last: bool = self.parts.len() > 0 && index == self.parts.len() - 1;
        if last && !self.changed {
            JOINED_WAIT_MS
        } else {
            0
        }
    }

    /// Takes what was seen on an output; a failure to look is handed on.
    pub fn take_part(
        &mut self,
        index: usize,
        grabbed: Result<Option<Frame>, CaptureError>,
    ) -> (r: Result<(), CaptureError>)
        requires
            old(self).wf(),
            index < old(self).parts@.len(),
            grabbed matches Ok(Some(frame)) ==> shows(frame, old(self).parts@[index as int].0),
        ensures
            final(self).wf(),
            match grabbed {
                Ok(Some(frame)) => {
                    &&& r == Ok::<(), CaptureError>(())
                    &&& final(self).parts@ == old(self).parts@.update(
                        index as int,
                        (old(self).parts@[index as int].0, frame),
                    )
                    &&& final(self).changed
                },
                Ok(None) => r == Ok::<(), CaptureError>(()) && *final(self) == *old(self),
                Err(e) => r == Err::<(), CaptureError>(e) && *final(self) == *old(self),
            },
    {
        match grabbed {
            Ok(Some(frame)) => {
                let place: Rect = self.parts[index].0;
                self.parts.set(index, (place, frame));
                self.changed = true;
                assert(part_rects(self.parts@) =~= part_rects(old(self).parts@));
                Ok(())
            },
            Ok(None) => Ok(()),
            Err(e) => Err(e),
        }
    }

    /// The picture of all outputs, cut to even sizes, where something has
    /// changed since the last one.
    pub fn frame(&mut self) -> (r: Option<Frame>)
        requires
            old(self).wf(),
        ensures
            final(self).wf(),
            final(self).parts == old(self).parts,
            !final(self).changed,
            match r {
                Some(frame) => old(self).changed && exists|whole: Frame| #[trigger]
                    joins(whole, old(self).parts@) && is_cut(frame, whole),
                None => !old(self).changed,
            },
    {
        if !self.changed {
            return None;
        }
        self.changed = false;
        let whole: Frame = join_frames(&self.parts);
        let ghost all = whole;
        let r: Frame = cut_to_even(whole);
        assert(joins(all, old(self).parts@) && is_cut(r, all));
        Some(r)
    }
}

proof fn lemma_last_part_is_seen(parts: Seq<(Rect, Frame)>, i: int, x: int, y: int, c: int)
    requires
        0 <= i < parts.len(),
        covers(parts[i].0, x, y),
        forall|j: int| i < j < parts.len() ==> !covers((#[trigger] parts[j]).0, x, y),
    ensures
        joined_byte(parts, x, y, c) == byte_at(
            parts[i].1,
            x - parts[i].0.left,
            y - parts[i].0.top,
            c,
        ),
    decreases parts.len(),
{
    if i < parts.len() - 1 {
        assert(!covers(parts[parts.len() - 1].0, x, y));
        lemma_last_part_is_seen(parts.drop_last(), i, x, y, c);
    }
}

/// Whether a column and a row are those of the left and of the top edge of all
/// parts together.
pub open spec fn is_corner(parts: Seq<(Rect, Frame)>, left: int, top: int) -> bool {
    &&& forall|i: int|
        0 <= i < parts.len() ==> left <= (#[trigger] parts[i]).0.left && top <= parts[i].0.top
    &&& exists|i: int| 0 <= i < parts.len() && (#[trigger] parts[i]).0.left == left
    &&& exists|i: int| 0 <= i < parts.len() && (#[trigger] parts[i]).0.top == top
}

proof fn lemma_corner_of_bounding(parts: Seq<(Rect, Frame)>, left: int, top: int)
    requires
        is_corner(parts, left, top),
    ensures
        bounding(part_rects(parts)).left == left,
        bounding(part_rects(parts)).top == top,
{
    let rects = part_rects(parts);
    let b = bounding(rects);
    let i = choose|i: int| 0 <= i < parts.len() && (#[trigger] parts[i]).0.left == left;
    let j = choose|j: int| 0 <= j < parts.len() && (#[trigger] parts[j]).0.top == top;
    let outer = Rect { left: parts[i].0.left, top: parts[j].0.top, ..b };
    bounding_is_the_smallest(rects, outer);
    assert(lies_in(rects[i], b));
    assert(lies_in(rects[j], b));
    assert forall|k: int| 0 <= k < rects.len() implies lies_in(#[trigger] rects[k], outer) by {
        assert(lies_in(rects[k], b));
        assert(rects[k] == parts[k].0);
    }
}

/// A joined picture begins at the left and the top edge of all parts together
/// and reaches to the right and the bottom edge; at every point of it the last
/// part that covers the point is seen, with the very pixel that the part has
/// there, and nothing where no part does.
pub proof fn joined_pictures_show_their_parts(
    parts: Vec<(Rect, Frame)>,
    r: Frame,
    left: int,
    top: int,
    i: int,
    x: int,
    y: int,
    c: int,
)
    requires
        call_ensures(join_frames, (&parts,), r),
        is_corner(parts@, left, top),
        is_in(r, x, y, c),
    ensures
        forall|k: int|
            0 <= k < parts@.len() ==> (#[trigger] parts@[k]).0.right <= left + r.width
                && parts@[k].0.bottom <= top + r.height,
        0 <= i < parts@.len() && covers(parts@[i].0, left + x, top + y) && (forall|j: int|
            i < j < parts@.len() ==> !covers((#[trigger] parts@[j]).0, left + x, top + y))
            ==> byte_at(r, x, y, c) == byte_at(
            parts@[i].1,
            left + x - parts@[i].0.left,
            top + y - parts@[i].0.top,
            c,
        ),
        (forall|j: int|
            0 <= j < parts@.len() ==> !covers((#[trigger] parts@[j]).0, left + x, top + y))
            ==> byte_at(r, x, y, c) == 0,
{
    lemma_corner_of_bounding(parts@, left, top);
    let rects = part_rects(parts@);
    bounding_is_the_smallest(rects, bounding(rects));
    assert forall|k: int| 0 <= k < parts@.len() implies (#[trigger] parts@[k]).0.right <= left
        + r.width && parts@[k].0.bottom <= top + r.height by {
        assert(lies_in(rects[k], bounding(rects)));
    }
    if 0 <= i < parts@.len() && covers(parts@[i].0, left + x, top + y) && (forall|j: int|
        i < j < parts@.len() ==> !covers((#[trigger] parts@[j]).0, left + x, top + y)) {
        lemma_last_part_is_seen(parts@, i, left + x, top + y, c);
    }
    if forall|j: int| 0 <= j < parts@.len() ==> !covers((#[trigger] parts@[j]).0, left + x, top + y) {
        gaps_are_black(parts@, left + x, top + y, c);
    }
}

/// A cut picture has the largest even sizes that fit, and every pixel of it is
/// the one that stood there before.
pub proof fn cut_pictures_keep_their_pixels(frame: Frame, r: Frame, x: int, y: int, c: int)
    requires
        call_ensures(cut_to_even, (frame,), r),
    ensures
        r.width % 2 == 0 && frame.width - 1 <= r.width <= frame.width,
        r.height % 2 == 0 && frame.height - 1 <= r.height <= frame.height,
        is_in(r, x, y, c) ==> r.data@[(y * r.width + x) * 4 + c] == frame.data@[(y * frame.width
            + x) * 4 + c],
{
    if is_in(r, x, y, c) {
        assert(byte_at(r, x, y, c) == byte_at(frame, x, y, c));
    }
}

/// The capture of all monitors gives a picture exactly if something has changed
/// since the last one, and it then shows, up to an odd column and row, the last
/// part that covers each point; the parts stay.
pub proof fn pictures_come_with_changes(
    capture: &&mut JoinedCapture,
    before: JoinedCapture,
    after: JoinedCapture,
    r: Option<Frame>,
    left: int,
    top: int,
    i: int,
    x: int,
    y: int,
    c: int,
)
    requires
        call_ensures(JoinedCapture::frame, (*capture,), r),
        before == **capture,
        after == *final(*capture),
        is_corner(before.parts@, left, top),
    ensures
        r is Some <==> before.changed,
        !after.changed,
        after.parts == before.parts,
        r matches Some(frame) ==> frame.width % 2 == 0 && frame.height % 2 == 0 && (is_in(
            frame,
            x,
            y,
            c,
        ) && 0 <= i < before.parts@.len() && covers(before.parts@[i].0, left + x, top + y) && (
        forall|j: int|
            i < j < before.parts@.len() ==> !covers(
                (#[trigger] before.parts@[j]).0,
                left + x,
                top + y,
            )) ==> byte_at(frame, x, y, c) == byte_at(
            before.parts@[i].1,
            left + x - before.parts@[i].0.left,
            top + y - before.parts@[i].0.top,
            c,
        )),
{
    lemma_corner_of_bounding(before.parts@, left, top);
    if let Some(frame) = r {
        let parts = before.parts@;
        let whole = choose|whole: Frame| #[trigger] joins(whole, parts) && is_cut(frame, whole);
        if is_in(frame, x, y, c) && 0 <= i < parts.len() && covers(parts[i].0, left + x, top + y)
            && (forall|j: int|
            i < j < parts.len() ==> !covers((#[trigger] parts[j]).0, left + x, top + y)) {
            lemma_last_part_is_seen(parts, i, left + x, top + y, c);
            assert(byte_at(frame, x, y, c) == byte_at(whole, x, y, c));
            assert(is_in(whole, x, y, c));
            assert(byte_at(whole, x, y, c) == joined_byte(parts, left + x, top + y, c));
        }
    }
}

/// What was seen on an output takes the place of what was seen on that output
/// before, and of nothing else, and is a change; a look that showed nothing new
/// or failed changes nothing, and a failure is handed on.
pub proof fn parts_are_taken_one_by_one(
    capture: &&mut JoinedCapture,
    before: JoinedCapture,
    after: JoinedCapture,
    index: usize,
    grabbed: Result<Option<Frame>, CaptureError>,
    r: Result<(), CaptureError>,
    other: int,
)
    requires
        call_ensures(JoinedCapture::take_part, (*capture, index, grabbed), r),
        before == **capture,
        after == *final(*capture),
        index < before.parts@.len(),
        0 <= other < before.parts@.len(),
    ensures
        after.parts@.len() == before.parts@.len(),
        after.parts@[other].0 == before.parts@[other].0,
        other != index ==> after.parts@[other] == before.parts@[other],
        grabbed matches Ok(Some(frame)) ==> after.parts@[index as int].1 == frame && after.changed,
        !(grabbed matches Ok(Some(_))) ==> after == before,
        grabbed matches Err(e) ==> r == Err::<(), CaptureError>(e),
        grabbed is Ok ==> r is Ok,
{
}

/// Only the last output is waited for, and only while nothing has changed.
pub proof fn only_the_last_output_is_waited_for(capture: JoinedCapture, index: usize, r: u32)
    requires
        call_ensures(JoinedCapture::wait_ms, (&capture, index), r),
    ensures
        r > 0 <==> index + 1 == capture.parts@.len() && !capture.changed,
        r > 0 ==> r == 10,
{
}

/// The capture of all outputs begins with a black part for each, in order, at
/// the place of the output and as large as it, and with nothing changed.
pub proof fn captures_begin_black(outputs: &Vec<AttachedOutput>, r: JoinedCapture, i: int, j: int)
    requires
        call_ensures(JoinedCapture::new, (outputs,), r),
        0 <= i < outputs@.len(),
    ensures
        r.parts@.len() == outputs@.len(),
        r.parts@[i].0 == outputs@[i].desc.rect,
        r.parts@[i].1.width == outputs@[i].desc.rect.right - outputs@[i].desc.rect.left,
        r.parts@[i].1.height == outputs@[i].desc.rect.bottom - outputs@[i].desc.rect.top,
        0 <= j < r.parts@[i].1.data@.len() ==> r.parts@[i].1.data@[j] == 0,
        !r.changed,
{
    assert(part_rects(r.parts@).len() == output_rects(outputs@).len());
    assert(part_rects(r.parts@)[i] == output_rects(outputs@)[i]);
    assert(r.parts@[i].0 == outputs@[i].desc.rect);
    assert(r.wf());
    assert(shows(r.parts@[i].1, r.parts@[i].0));
}

} // verus!
