//! Decoded images: RGBA pixels with premultiplied alpha, rows top to
//! bottom, four bytes a pixel.

use vstd::prelude::*;

verus! {

/// An image of `width` x `height` pixels.
pub struct Image {
    pub width: u32,
    pub height: u32,
    pub pixels: Vec<u8>,
}

/// The bytes of the first `h` rows of an image `w` pixels wide whose rows
/// start every `bpr` bytes of `data`.
pub open spec fn rows(data: Seq<u8>, w: nat, h: nat, bpr: nat) -> Seq<u8>
    decreases h,
{
    if h == 0 {
        Seq::empty()
    } else {
        let y = (h - 1) as nat;
        rows(data, w, y, bpr) + data.subrange((y * bpr) as int, (y * bpr + 4 * w) as int)
    }
}

/// The rows of an image hold four bytes for each of its pixels.
pub proof fn lemma_rows_len(data: Seq<u8>, w: nat, h: nat, bpr: nat)
    requires
        h * bpr <= data.len(),
        4 * w <= bpr,
    ensures
        rows(data, w, h, bpr).len() == 4 * w * h,
    decreases h,
{
    if h > 0 {
        let y = (h - 1) as nat;
        assert(y * bpr + bpr == h * bpr) by (nonlinear_arith)
            requires y == h - 1;
        assert(y * bpr <= h * bpr) by (nonlinear_arith)
            requires y == h - 1;
        lemma_rows_len(data, w, y, bpr);
        assert(4 * w * y + 4 * w == 4 * w * h) by (nonlinear_arith)
            requires y == h - 1;
        assert(data.subrange((y * bpr) as int, (y * bpr + 4 * w) as int).len() == 4 * w);
        assert(rows(data, w, h, bpr) == rows(data, w, y, bpr) + data.subrange((y * bpr) as int, (y * bpr + 4 * w) as int));
    } else {
        assert(4 * w * h == 0) by (nonlinear_arith)
            requires h == 0;
    }
}

impl Image {
    /// As many pixel bytes as the dimensions call for.
    pub open spec fn wf(&self) -> bool {
        self.pixels@.len() == 4 * self.width * self.height
    }

    /// The width and height.
    pub fn dimensions(&self) -> (r: (u32, u32))
        ensures
            r == (self.width, self.height),
    {
        (self.width, self.height)
    }

    /// A copy of the image.
    pub fn copy(&self) -> (r: Image)
        ensures
            r.width == self.width,
            r.height == self.height,
            r.pixels@ == self.pixels@,
    {
        let mut pixels: Vec<u8> = Vec::new();
        let mut i: usize = 0;
        while i < self.pixels.len()
            invariant
                i <= self.pixels@.len(),
                pixels@ == self.pixels@.take(i as int),
            decreases self.pixels@.len() - i,
        {
            pixels.push(self.pixels[i]);
            i = i + 1;
            assert(pixels@ =~= self.pixels@.take(i as int));
        }
        assert(self.pixels@.take(self.pixels@.len() as int) =~= self.pixels@);
        Image { width: self.width, height: self.height, pixels }
    }

    /// An image of the given size from its pixels.
    pub fn from_pixel_vec(pixels: Vec<u8>, size: (u32, u32)) -> (r: Image)
        ensures
            r.width == size.0,
            r.height == size.1,
            r.pixels@ == pixels@,
    {
        Image { width: size.0, height: size.1, pixels }
    }

    /// An image `width` pixels wide and `height` high from RGBA bytes whose
    /// rows start every `bytes_per_row` bytes of `data`.
    pub fn from_rgba_bytes(width: u32, height: u32, bytes_per_row: u32, data: &[u8]) -> (r: Image)
        requires
            4 * width <= bytes_per_row,
            height * bytes_per_row <= data@.len(),
            height * bytes_per_row <= u32::MAX,
        ensures
            r.width == width,
            r.height == height,
            r.pixels@ == rows(data@, width as nat, height as nat, bytes_per_row as nat),
            r.wf(),
    {
        let mut pixels: Vec<u8> = Vec::new();
        let mut y: u32 = 0;
        while y < height
            invariant
                y <= height,
                4 * width <= bytes_per_row,
                height * bytes_per_row <= data@.len(),
                height * bytes_per_row <= u32::MAX,
                pixels@ == rows(data@, width as nat, y as nat, bytes_per_row as nat),
            decreases height - y,
        {
            assert(y * bytes_per_row + bytes_per_row <= height * bytes_per_row) by (nonlinear_arith)
                requires y < height;
            let start = (y * bytes_per_row) as usize;
            let row_len = (4 * width) as usize;
            let mut x: usize = 0;
            let ghost before = pixels@;
            while x < row_len
                invariant
                    x <= row_len,
                    row_len == 4 * width,
                    start + row_len <= data@.len(),
                    start + row_len <= u32::MAX,
                    pixels@ == before + data@.subrange(start as int, start + x),
                decreases row_len - x,
            {
                pixels.push(data[start + x]);
                x = x + 1;
                assert(pixels@ =~= before + data@.subrange(start as int, start + x));
            }
            y = y + 1;
        }
        proof { lemma_rows_len(data@, width as nat, height as nat, bytes_per_row as nat); }
        Image { width, height, pixels }
    }
}

} // verus!
