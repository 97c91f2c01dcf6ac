use vstd::prelude::*;
use rayon::prelude::{IntoParallelIterator, ParallelIterator};
use crate::pixel::Rgba;
use crate::reduce::SourceImage;

verus! {

/// Why a sample buffer cannot become a source grid.
#[derive(Clone, Copy, Debug, PartialEq, Eq, Structural)]
pub enum SampleError {
    /// The width or the height is zero.
    Empty,
    /// The buffer holds fewer than four bytes for each pixel.
    SizeMismatch,
}

/// The pixel at (`x`, `y`) of a row-major RGBA8 buffer of width `w`.
pub open spec fn byte_pixel(bytes: Seq<u8>, w: int, x: int, y: int) -> Rgba {
    let k = 4 * (y * w + x);
    Rgba { r: bytes[k], g: bytes[k + 1], b: bytes[k + 2], a: bytes[k + 3] }
}

/// Row `y` of the buffer, as samples.
pub open spec fn row_from_bytes(r: Seq<Rgba>, bytes: Seq<u8>, w: int, y: int) -> bool {
    &&& r.len() == w
    &&& forall|x: int| 0 <= x < w ==> #[trigger] r[x] == byte_pixel(bytes, w, x, y)
}

/// `img` holds exactly the samples of the buffer.
pub open spec fn grid_from_bytes(img: SourceImage, bytes: Seq<u8>) -> bool {
    &&& img.wf()
    &&& forall|y: int| 0 <= y < img.height ==> row_from_bytes(#[trigger] img.rows@[y]@, bytes, img.width as int, y)
}

/// The outcome of sampling a `width` x `height` buffer.
pub open spec fn sampled(r: Result<SourceImage, SampleError>, width: u32, height: u32, bytes: Seq<u8>) -> bool {
    if width == 0 || height == 0 {
        r == Err::<SourceImage, SampleError>(SampleError::Empty)
    } else if bytes.len() < 4 * width * height {
        r == Err::<SourceImage, SampleError>(SampleError::SizeMismatch)
    } else {
        &&& r is Ok
        &&& r->Ok_0.width == width
        &&& r->Ok_0.height == height
        &&& grid_from_bytes(r->Ok_0, bytes)
    }
}

proof fn lemma_pixel_index(w: int, h: int, x: int, y: int)
    requires
        0 <= x < w,
        0 <= y < h,
    ensures
        0 <= 4 * (y * w + x),
        4 * (y * w + x) + 3 < 4 * w * h,
        4 * (y * w + x) == 4 * (y * w) + 4 * x,
{
    assert(y * w + x < w * h && 0 <= y * w) by (nonlinear_arith)
        requires 0 <= x < w, 0 <= y < h;
    assert(4 * w * h == 4 * (w * h)) by (nonlinear_arith);
}

/// Reads row `y` of a row-major RGBA8 buffer.
pub fn sample_row(bytes: &Vec<u8>, width: usize, height: usize, y: usize) -> (r: Vec<Rgba>)
    requires
        bytes@.len() >= 4 * width * height,
        y < height,
    ensures
        row_from_bytes(r@, bytes@, width as int, y as int),
{
    let len = bytes.len();
    proof {
        assert(0 <= y * width <= 4 * (y * width) <= 4 * width * height) by (nonlinear_arith)
            requires y < height;
    }
    let base = 4 * (y * width);
    let mut out: Vec<Rgba> = Vec::new();
    let mut x: usize = 0;
    while x < width
        invariant
            bytes@.len() >= 4 * width * height,
            len == bytes@.len(),
            y < height,
            base == 4 * (y * width),
            x <= width,
            out@.len() == x,
            forall|i: int| 0 <= i < x ==> #[trigger] out@[i] == byte_pixel(bytes@, width as int, i, y as int),
        decreases width - x,
    {
        proof {
            lemma_pixel_index(width as int, height as int, x as int, y as int);
            assert(4 * x <= 4 * (y * width + x));
        }
        let k = base + 4 * x;
        out.push(Rgba { r: bytes[k], g: bytes[k + 1], b: bytes[k + 2], a: bytes[k + 3] });
        x = x + 1;
    }
    out
}

/// Relies on rayon: an indexed parallel `map` over a range, collected into a
/// `Vec`, keeps the order of the range.
#[verifier::external_body]
fn par_sample_rows(bytes: &Vec<u8>, width: usize, height: usize) -> (r: Vec<Vec<Rgba>>)
    requires
        bytes@.len() >= 4 * width * height,
    ensures
        r@.len() == height,
        forall|y: int| 0 <= y < height ==> row_from_bytes(#[trigger] r@[y]@, bytes@, width as int, y),
{
    (0..height).into_par_iter().map(|y| sample_row(bytes, width, height, y)).collect()
}

fn seq_sample_rows(bytes: &Vec<u8>, width: usize, height: usize) -> (r: Vec<Vec<Rgba>>)
    requires
        bytes@.len() >= 4 * width * height,
    ensures
        r@.len() == height,
        forall|y: int| 0 <= y < height ==> row_from_bytes(#[trigger] r@[y]@, bytes@, width as int, y),
{
    let mut rows: Vec<Vec<Rgba>> = Vec::new();
    let mut y: usize = 0;
    while y < height
        invariant
            bytes@.len() >= 4 * width * height,
            y <= height,
            rows@.len() == y,
            forall|i: int| 0 <= i < y ==> row_from_bytes(#[trigger] rows@[i]@, bytes@, width as int, i),
        decreases height - y,
    {
        rows.push(sample_row(bytes, width, height, y));
        y = y + 1;
    }
    rows
}

/// Checks the buffer's size against the dimensions.
fn check_size(width: u32, height: u32, bytes: &Vec<u8>) -> (r: Result<(), SampleError>)
    ensures
        width == 0 || height == 0 ==> r == Err::<(), SampleError>(SampleError::Empty),
        width > 0 && height > 0 && bytes@.len() < 4 * width * height ==> r == Err::<(), SampleError>(
            SampleError::SizeMismatch,
        ),
        width > 0 && height > 0 && bytes@.len() >= 4 * width * height ==> r is Ok,
{
    if width == 0 || height == 0 {
        return Err(SampleError::Empty);
    }
    proof {
        let m: int = 0xffff_ffff;
        assert(4 * width * height <= 4 * m * m) by (nonlinear_arith)
            requires 0 <= width as int <= m, 0 <= height as int <= m;
    }
    if (bytes.len() as u128) < 4 * width as u128 * height as u128 {
        Err(SampleError::SizeMismatch)
    } else {
        Ok(())
    }
}

impl SourceImage {
    /// Builds the source grid from the first `4 * width * height` bytes of a
    /// row-major RGBA8 buffer, one row after the other.
    pub fn from_rgba(width: u32, height: u32, bytes: &Vec<u8>) -> (r: Result<SourceImage, SampleError>)
        ensures
            sampled(r, width, height, bytes@),
    {
        match check_size(width, height, bytes) {
            Err(e) => Err(e),
            Ok(()) => {
                let rows = seq_sample_rows(bytes, width as usize, height as usize);
                Ok(SourceImage { width: width as usize, height: height as usize, rows })
            },
        }
    }

    /// Builds the source grid like `from_rgba`, with the rows read in parallel.
    pub fn from_rgba_parallel(width: u32, height: u32, bytes: &Vec<u8>) -> (r: Result<SourceImage, SampleError>)
        ensures
            sampled(r, width, height, bytes@),
    {
        match check_size(width, height, bytes) {
            Err(e) => Err(e),
            Ok(()) => {
                let rows = par_sample_rows(bytes, width as usize, height as usize);
                Ok(SourceImage { width: width as usize, height: height as usize, rows })
            },
        }
    }
}

} // verus!
