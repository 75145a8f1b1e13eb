//! The renderer's state: the raster and the scanline cursor. Each frame
//! of colours overwrites one row, chosen cyclically, so the picture is a
//! rotating band rather than a conveyor.

use crate::queue::{frame_at, frames_due, rest_after, FrameQueue, F_SIZE};
use crate::raster::{
    least, row_index, visible_rows, visible_rows_of, with_scanline, Colour, Raster, RasterView,
};
use vstd::prelude::*;

verus! {

/// The row that the next frame lands on, given the cursor before it is
/// advanced: the advanced cursor reduced modulo the rows that are both
/// visible and present. None when no row can be addressed.
pub open spec fn target_row(cursor: nat, visible: nat, height: nat) -> Option<nat> {
    if least(visible, height) == 0 {
        None
    } else {
        Some(row_index(cursor + 1, least(visible, height)))
    }
}

/// The raster's bytes after one frame of colours was painted.
pub open spec fn after_paint(r: RasterView, cursor: nat, visible: nat, colours: Seq<Colour>) -> Seq<
    u8,
> {
    match target_row(cursor, visible, r.height) {
        Some(row) => with_scanline(r.bytes, r.stride, row, colours, least(r.width, colours.len())),
        None => r.bytes,
    }
}

/// The raster's bytes after the first `k` of `frames` were painted one
/// after the other, the cursor advancing by one for each.
pub open spec fn after_paints(
    r: RasterView,
    cursor: nat,
    visible: nat,
    frames: Seq<Vec<Colour>>,
    k: nat,
) -> Seq<u8>
    decreases k,
{
    if k == 0 {
        r.bytes
    } else {
        let before = RasterView {
            bytes: after_paints(r, cursor, visible, frames, (k - 1) as nat),
            ..r
        };
        after_paint(before, (cursor + k - 1) as nat, visible, frames[k - 1]@)
    }
}

/// Maps every value of a frame to its colour, in order.
pub fn colour_frame<T: Copy, F: Fn(T) -> Colour>(frame: &Vec<T>, colour_of: &F) -> (colours: Vec<
    Colour,
>)
    requires
        forall|x: T| call_requires(colour_of, (x,)),
    ensures
        colours@.len() == frame@.len(),
        forall|i: int|
            0 <= i < frame@.len() ==> call_ensures(colour_of, (frame@[i],), #[trigger] colours@[i]),
{
    let n: usize = frame.len();
    let mut colours: Vec<Colour> = Vec::new();
    let mut i: usize = 0;
    while i < n
        invariant
            i <= n,
            n == frame@.len(),
            colours@.len() == i,
            forall|x: T| call_requires(colour_of, (x,)),
            forall|j: int|
                0 <= j < i ==> call_ensures(colour_of, (frame@[j],), #[trigger] colours@[j]),
        decreases n - i,
    {
        let c: Colour = colour_of(frame[i]);
        colours.push(c);
        i = i + 1;
    }
    colours
}

/// What a waterfall is, as plain values.
pub struct WaterfallView {
    pub raster: RasterView,
    pub cursor: nat,
}

/// A raster together with the count of frames painted so far.
pub struct Waterfall {
    raster: Raster,
    cursor: usize,
}

impl View for Waterfall {
    type V = WaterfallView;

    closed spec fn view(&self) -> WaterfallView {
        WaterfallView { raster: self.raster@, cursor: self.cursor as nat }
    }
}

impl Waterfall {
    /// The raster's geometry fits its buffer.
    pub closed spec fn wf(&self) -> bool {
        self.raster.wf()
    }

    /// A waterfall over `raster` on which nothing was painted yet.
    pub fn new(raster: Raster) -> (w: Waterfall)
        requires
            raster.wf(),
        ensures
            w.wf(),
            w@.raster == raster@,
            w@.cursor == 0,
    {
        Waterfall { raster, cursor: 0 }
    }

    /// The raster as it stands.
    pub fn raster(&self) -> (r: &Raster)
        ensures
            r@ == self@.raster,
            self.wf() ==> r.wf(),
    {
        &self.raster
    }

    /// Number of frames painted so far.
    pub fn cursor(&self) -> (c: usize)
        ensures
            c == self@.cursor,
    {
        self.cursor
    }

    /// Paints one frame: advances the cursor by one and overwrites the row
    /// it then selects with `colours`, column by column. With no row to
    /// address the frame is counted and nothing is written. Returns the
    /// row that was written.
    pub fn paint(&mut self, displayed_height: i32, colours: &[Colour]) -> (row: Option<usize>)
        requires
            old(self).wf(),
            old(self)@.cursor < usize::MAX,
        ensures
            final(self).wf(),
            final(self)@.cursor == old(self)@.cursor + 1,
            final(self)@.raster.width == old(self)@.raster.width,
            final(self)@.raster.height == old(self)@.raster.height,
            final(self)@.raster.stride == old(self)@.raster.stride,
            final(self)@.raster.bytes.len() == old(self)@.raster.bytes.len(),
            final(self)@.raster.bytes == after_paint(
                old(self)@.raster,
                old(self)@.cursor,
                visible_rows_of(displayed_height as int),
                colours@,
            ),
            match row {
                Some(j) => target_row(
                    old(self)@.cursor,
                    visible_rows_of(displayed_height as int),
                    old(self)@.raster.height,
                ) == Some(j as nat),
                None => target_row(
                    old(self)@.cursor,
                    visible_rows_of(displayed_height as int),
                    old(self)@.raster.height,
                ).is_none(),
            },
    {
        self.cursor = self.cursor + 1;
        let visible: usize = visible_rows(displayed_height);
        let height: usize = self.raster.height();
        let rows: usize = if visible <= height {
            visible
        } else {
            height
        };
        if rows == 0 {
            return None;
        }
        let row: usize = self.cursor % rows;
        self.raster.write_scanline(row, colours);
        Some(row)
    }

    /// One repaint: for as long as more than `F_SIZE` spectral values are
    /// queued, takes `F_SIZE` of them as one frame, maps each value to its
    /// colour with `colour_of` and paints the frame on the next row. The
    /// colours that were painted are handed back, frame by frame.
    pub fn render_pending<T: Copy, F: Fn(T) -> Colour>(
        &mut self,
        frequencies: &mut FrameQueue<T>,
        displayed_height: i32,
        colour_of: &F,
    ) -> (painted: Vec<Vec<Colour>>)
        requires
            old(self).wf(),
            old(self)@.cursor + frames_due(old(frequencies)@.len()) <= usize::MAX,
            forall|x: T| call_requires(colour_of, (x,)),
        ensures
            final(self).wf(),
            painted@.len() == frames_due(old(frequencies)@.len()),
            final(frequencies)@ == rest_after(old(frequencies)@, painted@.len() as int),
            forall|k: int|
                0 <= k < painted@.len() ==> (#[trigger] painted@[k])@.len() == F_SIZE,
            forall|k: int, i: int|
                0 <= k < painted@.len() && 0 <= i < F_SIZE ==> call_ensures(
                    colour_of,
                    (frame_at(old(frequencies)@, k)[i],),
                    #[trigger] painted@[k]@[i],
                ),
            final(self)@.cursor == old(self)@.cursor + painted@.len(),
            final(self)@.raster.width == old(self)@.raster.width,
            final(self)@.raster.height == old(self)@.raster.height,
            final(self)@.raster.stride == old(self)@.raster.stride,
            final(self)@.raster.bytes.len() == old(self)@.raster.bytes.len(),
            final(self)@.raster.bytes == after_paints(
                old(self)@.raster,
                old(self)@.cursor,
                visible_rows_of(displayed_height as int),
                painted@,
                painted@.len(),
            ),
    {
        let frames = frequencies.drain_frames();
        let n: usize = frames.len();
        let mut painted: Vec<Vec<Colour>> = Vec::new();
        let mut k: usize = 0;
        while k < n
            invariant
                k <= n,
                n == frames@.len(),
                painted@.len() == k,
                forall|x: T| call_requires(colour_of, (x,)),
                forall|j: int| 0 <= j < n ==> (#[trigger] frames@[j])@.len() == F_SIZE,
                forall|j: int| 0 <= j < k ==> (#[trigger] painted@[j])@.len() == F_SIZE,
                forall|j: int, i: int|
                    0 <= j < k && 0 <= i < F_SIZE ==> call_ensures(
                        colour_of,
                        (frames@[j]@[i],),
                        #[trigger] painted@[j]@[i],
                    ),
            decreases n - k,
        {
            let colours = colour_frame(&frames[k], colour_of);
            painted.push(colours);
            k = k + 1;
        }
        self.paint_all(displayed_height, &painted);
        painted
    }

    /// Paints every frame of `frames`, oldest first, each on the row after
    /// the one before it.
    pub fn paint_all(&mut self, displayed_height: i32, frames: &Vec<Vec<Colour>>)
        requires
            old(self).wf(),
            old(self)@.cursor + frames@.len() <= usize::MAX,
        ensures
            final(self).wf(),
            final(self)@.cursor == old(self)@.cursor + frames@.len(),
            final(self)@.raster.width == old(self)@.raster.width,
            final(self)@.raster.height == old(self)@.raster.height,
            final(self)@.raster.stride == old(self)@.raster.stride,
            final(self)@.raster.bytes.len() == old(self)@.raster.bytes.len(),
            final(self)@.raster.bytes == after_paints(
                old(self)@.raster,
                old(self)@.cursor,
                visible_rows_of(displayed_height as int),
                frames@,
                frames@.len(),
            ),
    {
        let n: usize = frames.len();
        let mut k: usize = 0;
        while k < n
            invariant
                k <= n,
                n == frames@.len(),
                self.wf(),
                old(self)@.cursor + n <= usize::MAX,
                self@.cursor == old(self)@.cursor + k,
                self@.raster.width == old(self)@.raster.width,
                self@.raster.height == old(self)@.raster.height,
                self@.raster.stride == old(self)@.raster.stride,
                self@.raster.bytes.len() == old(self)@.raster.bytes.len(),
                self@.raster.bytes == after_paints(
                    old(self)@.raster,
                    old(self)@.cursor,
                    visible_rows_of(displayed_height as int),
                    frames@,
                    k as nat,
                ),
            decreases n - k,
        {
            let ghost before = self@.raster;
            self.paint(displayed_height, frames[k].as_slice());
            proof {
                let r = old(self)@.raster;
                assert(before == RasterView {
                    bytes: after_paints(
                        r,
                        old(self)@.cursor,
                        visible_rows_of(displayed_height as int),
                        frames@,
                        k as nat,
                    ),
                    ..r
                });
            }
            k = k + 1;
        }
    }
}

/// The cursor addresses rows cyclically: a full turn of `rows` frames
/// later the same row is selected again.
pub proof fn lemma_cursor_cycles(cursor: nat, rows: nat)
    requires
        rows > 0,
    ensures
        row_index(cursor + rows, rows) == row_index(cursor, rows),
        row_index(cursor, rows) < rows,
{
    vstd::arithmetic::div_mod::lemma_mod_add_multiples_vanish(cursor as int, rows as int);
    vstd::arithmetic::div_mod::lemma_mod_bound(cursor as int, rows as int);
}

/// On a fresh waterfall with more than three addressable rows, the frame
/// painted three past one full turn lands on row three.
pub proof fn lemma_three_past_a_turn(visible: nat, height: nat)
    requires
        least(visible, height) > 3,
    ensures
        target_row((least(visible, height) + 2) as nat, visible, height) == Some(3nat),
{
    let rows = least(visible, height);
    lemma_cursor_cycles(3, rows);
    vstd::arithmetic::div_mod::lemma_small_mod(3, rows);
    assert(rows + 2 + 1 == 3 + rows);
}

} // verus!
