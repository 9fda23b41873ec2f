//! The pixel geometry of star measurement: the centre crop that is
//! searched and the window in which star candidates are looked for.
use vstd::prelude::*;

verus! {

/// Largest side of the centre crop searched for stars.
pub const MAX_CROP: usize = 2048;

/// Least distance of a star candidate from the crop edge, so that the
/// half-maximum walk never leaves the crop.
pub const MARGIN: usize = 12;

/// A centred region of an image: its top-left corner and its size.
pub struct CropWindow {
    pub x0: usize,
    pub y0: usize,
    pub width: usize,
    pub height: usize,
}

/// The centre crop of a `width` × `height` image: at most `MAX_CROP` pixels
/// on each side, centred (rounding the offset down), and inside the image.
pub fn crop_window(width: usize, height: usize) -> (c: CropWindow)
    ensures
        c.width == if width < MAX_CROP { width } else { MAX_CROP },
        c.height == if height < MAX_CROP { height } else { MAX_CROP },
        c.x0 == (width - c.width) / 2,
        c.y0 == (height - c.height) / 2,
        c.x0 + c.width <= width,
        c.y0 + c.height <= height,
{
    let cw = if width < MAX_CROP { width } else { MAX_CROP };
    let ch = if height < MAX_CROP { height } else { MAX_CROP };
    CropWindow { x0: (width - cw) / 2, y0: (height - ch) / 2, width: cw, height: ch }
}

/// The range of rows (or columns) where a star candidate may lie in a crop
/// side of `size` pixels: from `MARGIN` up to `MARGIN` short of the edge
/// (empty when the side is too short).
pub fn candidate_range(size: usize) -> (r: (usize, usize))
    ensures
        r.0 == MARGIN,
        r.1 == if size >= MARGIN { size - MARGIN } else { 0 },
        r.0 < r.1 ==> r.1 + MARGIN == size,
{
    (MARGIN, size.saturating_sub(MARGIN))
}

/// Rows `0 .. n` of a crop: `width` samples per image row, the crop's rows
/// starting at row `y0`, each taken from column `x0` for `cw` samples.
pub open spec fn crop_rows<T>(pixels: Seq<T>, width: int, x0: int, y0: int, cw: int, n: nat) -> Seq<
    T,
>
    decreases n,
{
    if n == 0 {
        Seq::empty()
    } else {
        let start = (y0 + n - 1) * width + x0;
        crop_rows(pixels, width, x0, y0, cw, (n - 1) as nat) + pixels.subrange(start, start + cw)
    }
}

/// The samples of the centre crop of a `width` × `height` image stored row
/// by row, row after row.
pub open spec fn crop_of<T>(pixels: Seq<T>, width: int, height: int) -> Seq<T> {
    let cw = if width < MAX_CROP { width } else { MAX_CROP as int };
    let ch = if height < MAX_CROP { height } else { MAX_CROP as int };
    crop_rows(pixels, width, (width - cw) / 2, (height - ch) / 2, cw, ch as nat)
}

/// Copies the centre crop (`crop_window`) out of a `width` × `height` image
/// stored row by row.
pub fn crop_pixels<T: Copy>(pixels: &[T], width: usize, height: usize) -> (r: Vec<T>)
    requires
        pixels@.len() >= width * height,
    ensures
        r@ == crop_of(pixels@, width as int, height as int),
{
    let c = crop_window(width, height);
    let mut r: Vec<T> = Vec::new();
    let len = pixels.len();
    let mut row: usize = 0;
    while row < c.height
        invariant
            len == pixels@.len(),
            c.x0 + c.width <= width,
            c.y0 + c.height <= height,
            pixels@.len() >= width * height,
            row <= c.height,
            r@ == crop_rows(pixels@, width as int, c.x0 as int, c.y0 as int, c.width as int, row as nat),
        decreases c.height - row,
    {
        assert((c.y0 + row) * width + width <= width * height) by (nonlinear_arith)
            requires
                c.y0 + row + 1 <= height,
        ;
        let start = (c.y0 + row) * width + c.x0;
        let ghost before = r@;
        let mut j: usize = 0;
        while j < c.width
            invariant
                len == pixels@.len(),
                c.x0 + c.width <= width,
                start == (c.y0 + row) * width + c.x0,
                start + c.width <= pixels@.len(),
                j <= c.width,
                r@ == before + pixels@.subrange(start as int, start + j),
            decreases c.width - j,
        {
            r.push(pixels[start + j]);
            assert(pixels@.subrange(start as int, start + j + 1) =~= pixels@.subrange(
                start as int,
                start + j,
            ).push(pixels@[start + j]));
            j = j + 1;
        }
        row = row + 1;
    }
    r
}

} // verus!
