//! The persistent pixel buffer of the waterfall and the cyclic cursor that
//! picks the row each new frame overwrites.

use vstd::prelude::*;

verus! {

/// Bytes that one pixel takes: three colour channels and one unused byte.
pub const BYTES_PER_PIXEL: usize = 4;

/// Rows of the raster as it is created.
pub const HEIGHT: usize = 720;

/// Vertical factor by which the raster is stretched when it is shown.
pub const H_SCALE: usize = 2;

/// Horizontal factor by which the raster is stretched when it is shown.
pub const F_SCALE: usize = 3;

/// The three colour channels of one pixel, in the order in which they are
/// stored.
pub type Colour = [u8; 3];

/// The grey of the given brightness: the same value in all three
/// channels.
pub fn grey(brightness: u8) -> (c: Colour)
    ensures
        c[0] == brightness,
        c[1] == brightness,
        c[2] == brightness,
{
    [brightness, brightness, brightness]
}

/// The byte at offset `off` of a scanline painted with `colours`: three
/// channel bytes per pixel, then a zero.
pub open spec fn scanline_byte(colours: Seq<Colour>, off: int) -> u8 {
    if off % 4 == 3 {
        0u8
    } else {
        colours[off / 4][off % 4]
    }
}

/// `bytes` with the first `n` pixels of row `row` overwritten by the first
/// `n` of `colours`; every other byte as it was.
pub open spec fn with_scanline(
    bytes: Seq<u8>,
    stride: nat,
    row: nat,
    colours: Seq<Colour>,
    n: nat,
) -> Seq<u8> {
    Seq::new(
        bytes.len(),
        |k: int|
            if row * stride <= k < row * stride + 4 * n {
                scanline_byte(colours, k - row * stride)
            } else {
                bytes[k]
            },
    )
}

/// Number of rows that can be addressed when the display area is
/// `displayed_height` high: the height divided by the vertical scale,
/// rounded down, and none for a height that is not positive.
pub open spec fn visible_rows_of(displayed_height: int) -> nat {
    if displayed_height <= 0 {
        0
    } else {
        (displayed_height / (H_SCALE as int)) as nat
    }
}

/// The row that the cursor value `cursor` selects among `rows` rows.
pub open spec fn row_index(cursor: nat, rows: nat) -> nat
    recommends
        rows > 0,
{
    cursor % rows
}

/// The smaller of two sizes.
pub open spec fn least(a: nat, b: nat) -> nat {
    if a <= b {
        a
    } else {
        b
    }
}

/// Executable form of [`visible_rows_of`].
pub fn visible_rows(displayed_height: i32) -> (rows: usize)
    ensures
        rows == visible_rows_of(displayed_height as int),
{
    if displayed_height <= 0 {
        0
    } else {
        (displayed_height as usize) / H_SCALE
    }
}

/// What a raster is, as plain values.
pub struct RasterView {
    pub width: nat,
    pub height: nat,
    pub stride: nat,
    pub bytes: Seq<u8>,
}

/// A pixel buffer of fixed geometry: `height` rows of `stride` bytes, of
/// which the first `4 * width` hold pixels.
pub struct Raster {
    width: usize,
    height: usize,
    stride: usize,
    data: Vec<u8>,
}

impl View for Raster {
    type V = RasterView;

    closed spec fn view(&self) -> RasterView {
        RasterView {
            width: self.width as nat,
            height: self.height as nat,
            stride: self.stride as nat,
            bytes: self.data@,
        }
    }
}

impl Raster {
    /// The geometry fits the buffer: a row holds all its pixels and the
    /// buffer holds all its rows.
    pub open spec fn wf(&self) -> bool {
        &&& BYTES_PER_PIXEL * self@.width <= self@.stride
        &&& self@.bytes.len() == self@.stride * self@.height
    }

    /// A raster of the given geometry with every byte zero. There is none
    /// when a row of `stride` bytes cannot hold `width` pixels, or when the
    /// buffer's size does not fit the machine's address range.
    pub fn new(width: usize, height: usize, stride: usize) -> (made: Option<Raster>)
        ensures
            made.is_some() <==> (BYTES_PER_PIXEL * width <= stride && stride * height
                <= usize::MAX),
            made.is_some() ==> {
                let r = made.unwrap();
                &&& r.wf()
                &&& r@.width == width
                &&& r@.height == height
                &&& r@.stride == stride
                &&& forall|k: int| 0 <= k < r@.bytes.len() ==> r@.bytes[k] == 0u8
            },
    {
        if width > stride / BYTES_PER_PIXEL {
            return None;
        }
        match stride.checked_mul(height) {
            Some(size) => {
                let data: Vec<u8> = vec![0u8; size];
                Some(Raster { width, height, stride, data })
            },
            None => None,
        }
    }

    /// Pixels per row.
    pub fn width(&self) -> (w: usize)
        ensures
            w == self@.width,
    {
        self.width
    }

    /// Number of rows.
    pub fn height(&self) -> (h: usize)
        ensures
            h == self@.height,
    {
        self.height
    }

    /// Bytes from the start of one row to the start of the next.
    pub fn stride(&self) -> (s: usize)
        ensures
            s == self@.stride,
    {
        self.stride
    }

    /// The pixel bytes, row after row.
    pub fn bytes(&self) -> (b: &Vec<u8>)
        ensures
            b@ == self@.bytes,
    {
        &self.data
    }

    /// Overwrites the start of row `row` with `colours`, one pixel per
    /// colour, up to the raster's width. A row outside the raster is not
    /// written at all. The geometry and the buffer's size stay as they are.
    pub fn write_scanline(&mut self, row: usize, colours: &[Colour]) -> (written: bool)
        requires
            old(self).wf(),
        ensures
            final(self).wf(),
            final(self)@.width == old(self)@.width,
            final(self)@.height == old(self)@.height,
            final(self)@.stride == old(self)@.stride,
            final(self)@.bytes.len() == old(self)@.bytes.len(),
            written == (row < old(self)@.height),
            written ==> final(self)@.bytes == with_scanline(
                old(self)@.bytes,
                old(self)@.stride,
                row as nat,
                colours@,
                least(old(self)@.width, colours@.len()),
            ),
            !written ==> final(self)@.bytes == old(self)@.bytes,
    {
        if row >= self.height {
            return false;
        }
        let n: usize = if colours.len() < self.width {
            colours.len()
        } else {
            self.width
        };
        let stride: usize = self.stride;
        let total: usize = self.data.len();
        proof {
            assert(row * stride + stride <= stride * self.height) by (nonlinear_arith)
                requires
                    row < self.height,
            ;
            assert(row * stride + stride <= total);
            assert(self.data@ =~= with_scanline(old(self)@.bytes, stride as nat, row as nat, colours@, 0));
        }
        let base: usize = row * stride;
        let mut i: usize = 0;
        while i < n
            invariant
                i <= n,
                n <= self.width,
                n <= colours@.len(),
                base == row * stride,
                stride == self.stride,
                base + stride <= total,
                total == self.data@.len(),
                BYTES_PER_PIXEL * self.width <= stride,
                self.width == old(self).width,
                self.height == old(self).height,
                self.stride == old(self).stride,
                self.data@.len() == old(self).data@.len(),
                self.data@ == with_scanline(old(self)@.bytes, stride as nat, row as nat, colours@, i as nat),
            decreases n - i,
        {
            let at: usize = base + BYTES_PER_PIXEL * i;
            let c: Colour = colours[i];
            self.data.set(at, c[0]);
            self.data.set(at + 1, c[1]);
            self.data.set(at + 2, c[2]);
            self.data.set(at + 3, 0);
            proof {
                assert(self.data@ =~= with_scanline(
                    old(self)@.bytes,
                    stride as nat,
                    row as nat,
                    colours@,
                    (i + 1) as nat,
                ));
            }
            i = i + 1;
        }
        true
    }
}

} // verus!
