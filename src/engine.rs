use vstd::prelude::*;
use rayon::prelude::{IntoParallelIterator, ParallelIterator};
use crate::dims::{demure_unwrap, resolved_dims};
use crate::glyph::{
    classify, classify_spec, glyph_index, lemma_brightest_glyph, lemma_glyph_index_in_range, lemma_darkest_glyph, standard_glyphs, ColorChar,
    DensityRamp, Options, UsageError,
};
use crate::pixel::Rgba;
use crate::reduce::{
    cell_of, cell_window, window_seq, lemma_black_window, lemma_white_window, reduce_cell, scale_of, SourceImage,
};
use crate::render::{gen_ascii, lemma_text_rows, newline_count, text_of};

verus! {

/// A converted image: one row of characters per target row.
pub struct AsciiImg {
    /// The requested height, if any.
    pub height: Option<u32>,
    /// The requested width, if any.
    pub width: Option<u32>,
    pub pixels: Vec<Vec<ColorChar>>,
}

/// The character at target cell (`row`, `col`) of a `tw` x `th` grid.
pub open spec fn art_cell(
    img: SourceImage,
    glyphs: Seq<char>,
    opts: Options,
    tw: int,
    th: int,
    row: int,
    col: int,
) -> ColorChar {
    classify_spec(
        glyphs,
        cell_of(
            cell_window(
                img,
                row,
                col,
                scale_of(img.width as int, tw),
                scale_of(img.height as int, th),
            ),
        ),
        opts,
    )
}

pub open spec fn row_matches(
    r: Seq<ColorChar>,
    img: SourceImage,
    glyphs: Seq<char>,
    opts: Options,
    tw: int,
    th: int,
    row: int,
) -> bool {
    &&& r.len() == tw
    &&& forall|col: int| 0 <= col < tw ==> #[trigger] r[col] == art_cell(img, glyphs, opts, tw, th, row, col)
}

/// `pixels` is the `tw` x `th` character grid of `img`.
pub open spec fn art_matches(
    pixels: Seq<Vec<ColorChar>>,
    img: SourceImage,
    glyphs: Seq<char>,
    opts: Options,
    tw: int,
    th: int,
) -> bool {
    &&& pixels.len() == th
    &&& forall|row: int|
        0 <= row < th ==> row_matches(#[trigger] pixels[row]@, img, glyphs, opts, tw, th, row)
}

/// The grid size that a conversion of `img` resolves to.
pub open spec fn target_of(img: SourceImage, target_height: Option<u32>, target_width: Option<u32>) -> (int, int) {
    resolved_dims(target_width, target_height, img.width as int, img.height as int)
}

/// The characters of target row `row`.
pub fn art_row(img: &SourceImage, ramp: &DensityRamp, opts: Options, tw: usize, th: usize, row: usize) -> (r: Vec<ColorChar>)
    requires
        img.wf(),
        ramp.wf(),
        1 <= tw <= img.width,
        1 <= th <= img.height,
    ensures
        row_matches(r@, *img, ramp.glyphs@, opts, tw as int, th as int, row as int),
{
    let sx64 = (img.width as u64 + tw as u64 - 1) / tw as u64;
    let sy64 = (img.height as u64 + th as u64 - 1) / th as u64;
    proof {
        let (w, t, q) = (img.width as int, tw as int, sx64 as int);
        assert(q <= w) by (nonlinear_arith)
            requires q == (w + t - 1) / t, 1 <= t <= w;
        let (h, u, p) = (img.height as int, th as int, sy64 as int);
        assert(p <= h) by (nonlinear_arith)
            requires p == (h + u - 1) / u, 1 <= u <= h;
    }
    let sx = sx64 as usize;
    let sy = sy64 as usize;
    let mut out: Vec<ColorChar> = Vec::new();
    let mut col: usize = 0;
    while col < tw
        invariant
            img.wf(),
            ramp.wf(),
            col <= tw,
            sx == scale_of(img.width as int, tw as int),
            sy == scale_of(img.height as int, th as int),
            out@.len() == col,
            forall|c: int|
                0 <= c < col ==> #[trigger] out@[c] == art_cell(*img, ramp.glyphs@, opts, tw as int, th as int, row as int, c),
        decreases tw - col,
    {
        let cell = reduce_cell(img, row, col, sx, sy);
        out.push(classify(ramp, cell, opts));
        col = col + 1;
    }
    out
}

/// Relies on rayon: an indexed parallel `map` over a range, collected into a
/// `Vec`, keeps the order of the range.
#[verifier::external_body]
fn par_art_rows(img: &SourceImage, ramp: &DensityRamp, opts: Options, tw: usize, th: usize) -> (r: Vec<Vec<ColorChar>>)
    requires
        img.wf(),
        ramp.wf(),
        1 <= tw <= img.width,
        1 <= th <= img.height,
    ensures
        art_matches(r@, *img, ramp.glyphs@, opts, tw as int, th as int),
{
    (0..th).into_par_iter().map(|row| art_row(img, ramp, opts, tw, th, row)).collect()
}

fn seq_art_rows(img: &SourceImage, ramp: &DensityRamp, opts: Options, tw: usize, th: usize) -> (r: Vec<Vec<ColorChar>>)
    requires
        img.wf(),
        ramp.wf(),
        1 <= tw <= img.width,
        1 <= th <= img.height,
    ensures
        art_matches(r@, *img, ramp.glyphs@, opts, tw as int, th as int),
{
    let mut rows: Vec<Vec<ColorChar>> = Vec::new();
    let mut row: usize = 0;
    while row < th
        invariant
            img.wf(),
            ramp.wf(),
            1 <= tw <= img.width,
            1 <= th <= img.height,
            row <= th,
            rows@.len() == row,
            forall|i: int|
                0 <= i < row ==> row_matches(#[trigger] rows@[i]@, *img, ramp.glyphs@, opts, tw as int, th as int, i),
        decreases th - row,
    {
        rows.push(art_row(img, ramp, opts, tw, th, row));
        row = row + 1;
    }
    rows
}

impl AsciiImg {
    /// Converts `img` to characters of `ramp`, row by row in order.
    pub fn new(
        img: &SourceImage,
        ramp: &DensityRamp,
        target_height: Option<u32>,
        target_width: Option<u32>,
        opts: Options,
    ) -> (r: AsciiImg)
        requires
            img.wf(),
            ramp.wf(),
        ensures
            r.height == target_height,
            r.width == target_width,
            art_matches(
                r.pixels@,
                *img,
                ramp.glyphs@,
                opts,
                target_of(*img, target_height, target_width).0,
                target_of(*img, target_height, target_width).1,
            ),
    {
        let (tw, th) = demure_unwrap(target_width, target_height, img.width as u32, img.height as u32);
        let pixels = seq_art_rows(img, ramp, opts, tw as usize, th as usize);
        AsciiImg { height: target_height, width: target_width, pixels }
    }

    /// Converts `img` like `new`, with the target rows computed in parallel.
    pub fn new_parallel(
        img: &SourceImage,
        ramp: &DensityRamp,
        target_height: Option<u32>,
        target_width: Option<u32>,
        opts: Options,
    ) -> (r: AsciiImg)
        requires
            img.wf(),
            ramp.wf(),
        ensures
            r.height == target_height,
            r.width == target_width,
            art_matches(
                r.pixels@,
                *img,
                ramp.glyphs@,
                opts,
                target_of(*img, target_height, target_width).0,
                target_of(*img, target_height, target_width).1,
            ),
    {
        let (tw, th) = demure_unwrap(target_width, target_height, img.width as u32, img.height as u32);
        let pixels = par_art_rows(img, ramp, opts, tw as usize, th as usize);
        AsciiImg { height: target_height, width: target_width, pixels }
    }
}

/// `s` is the text of converting `img` with the standard ramp.
pub open spec fn converted(
    s: Seq<char>,
    img: SourceImage,
    target_height: Option<u32>,
    target_width: Option<u32>,
    opts: Options,
) -> bool {
    exists|pixels: Seq<Vec<ColorChar>>, pieces: Seq<Seq<Seq<char>>>|
        {
            &&& art_matches(
                pixels,
                img,
                standard_glyphs(),
                opts,
                target_of(img, target_height, target_width).0,
                target_of(img, target_height, target_width).1,
            )
            &&& #[trigger] text_of(s, pieces, pixels, opts.colored)
        }
}

/// Converts `img` to text with the standard ramp. Colour is attached unless
/// `grayscale`; `uniform` without colour is refused. Whether the rows are
/// computed in parallel does not change the result.
pub fn convert(
    img: &SourceImage,
    target_height: Option<u32>,
    target_width: Option<u32>,
    invert: bool,
    grayscale: bool,
    uniform: bool,
    paralleled: bool,
) -> (r: Result<String, UsageError>)
    requires
        img.wf(),
    ensures
        uniform && grayscale <==> r is Err,
        r is Err ==> r->Err_0 == UsageError::UniformWithoutColor,
        r is Ok ==> converted(
            r->Ok_0@,
            *img,
            target_height,
            target_width,
            Options { invert, colored: !grayscale, uniform },
        ),
        r is Ok ==> newline_count(r->Ok_0@) == target_of(*img, target_height, target_width).1 - 1,
{
    let opts = match Options::new(invert, !grayscale, uniform) {
        Ok(o) => o,
        Err(e) => {
            return Err(e);
        },
    };
    let ramp = DensityRamp::standard();
    let ascii = if paralleled {
        AsciiImg::new_parallel(img, &ramp, target_height, target_width, opts)
    } else {
        AsciiImg::new(img, &ramp, target_height, target_width, opts)
    };
    let colored = !grayscale;
    let s = gen_ascii(&ascii.pixels, colored);
    proof {
        let pieces = choose|pieces: Seq<Seq<Seq<char>>>| text_of(s@, pieces, ascii.pixels@, colored);
        assert(text_of(s@, pieces, ascii.pixels@, colored));
        let (tw, th) = target_of(*img, target_height, target_width);
        let g = standard_glyphs();
        assert forall|i: int, j: int|
            0 <= i < ascii.pixels@.len() && 0 <= j < ascii.pixels@[i]@.len() implies (
            #[trigger] ascii.pixels@[i]@[j]).ch != '\n' by {
            assert(row_matches(ascii.pixels@[i]@, *img, g, opts, tw, th, i));
            let c = cell_of(cell_window(*img, i, j, scale_of(img.width as int, tw), scale_of(img.height as int, th)));
            lemma_glyph_index_in_range(c.luminance, 10, opts.invert, opts.uniform);
            let k = glyph_index(c.luminance as int, 10, opts.invert, opts.uniform);
            assert(g[k] != '\n');
        }
        lemma_text_rows(s@, pieces, ascii.pixels@, colored);
    }
    Ok(s)
}

/// A non-empty window of opaque black samples takes the least dense
/// character, or the densest when inverting.
pub proof fn lemma_black_window_glyph(s: Seq<Rgba>, glyphs: Seq<char>, opts: Options)
    requires
        s.len() > 0,
        forall|i: int| 0 <= i < s.len() ==> #[trigger] s[i] == (Rgba { r: 0, g: 0, b: 0, a: 255 }),
        glyphs.len() >= 2,
        !opts.uniform,
    ensures
        classify_spec(glyphs, cell_of(s), opts).ch == if opts.invert {
            glyphs.last()
        } else {
            glyphs[0]
        },
{
    lemma_black_window(s);
    lemma_darkest_glyph(glyphs, cell_of(s), opts);
}

/// A non-empty window of opaque white samples takes the densest character of
/// a ramp of at most 256, or the least dense when inverting.
pub proof fn lemma_white_window_glyph(s: Seq<Rgba>, glyphs: Seq<char>, opts: Options)
    requires
        s.len() > 0,
        forall|i: int| 0 <= i < s.len() ==> #[trigger] s[i] == (Rgba { r: 255, g: 255, b: 255, a: 255 }),
        2 <= glyphs.len() <= 256,
        !opts.uniform,
    ensures
        classify_spec(glyphs, cell_of(s), opts).ch == if opts.invert {
            glyphs[0]
        } else {
            glyphs.last()
        },
{
    lemma_white_window(s);
    lemma_brightest_glyph(glyphs, cell_of(s), opts);
}

/// In uniform mode every character of a converted grid is the densest one.
pub proof fn lemma_uniform_grid(
    pixels: Seq<Vec<ColorChar>>,
    img: SourceImage,
    glyphs: Seq<char>,
    opts: Options,
    tw: int,
    th: int,
)
    requires
        art_matches(pixels, img, glyphs, opts, tw, th),
        glyphs.len() >= 2,
        opts.uniform,
    ensures
        forall|row: int, col: int|
            0 <= row < th && 0 <= col < tw ==> (#[trigger] pixels[row]@[col]).ch == glyphs.last(),
{
    assert forall|row: int, col: int| 0 <= row < th && 0 <= col < tw implies (
    #[trigger] pixels[row]@[col]).ch == glyphs.last() by {
        assert(row_matches(pixels[row]@, img, glyphs, opts, tw, th, row));
    }
}

/// `y` has the glyph of `x` mirrored on the ramp, and the same colour.
pub open spec fn glyph_reversed(x: ColorChar, y: ColorChar, glyphs: Seq<char>) -> bool {
    &&& x.color == y.color
    &&& exists|k: int|
        0 <= k < glyphs.len() && x.ch == #[trigger] glyphs[k] && y.ch == glyphs[glyphs.len() - 1 - k]
}

/// Toggling `invert` outside uniform mode reverses the glyphs of a converted
/// grid and keeps its colours: where one grid has the `k`-th character of the
/// ramp, the other has the `(N-1-k)`-th.
pub proof fn lemma_invert_grid(
    a: Seq<Vec<ColorChar>>,
    b: Seq<Vec<ColorChar>>,
    img: SourceImage,
    glyphs: Seq<char>,
    opts: Options,
    tw: int,
    th: int,
)
    requires
        glyphs.len() >= 2,
        !opts.uniform,
        art_matches(a, img, glyphs, opts, tw, th),
        art_matches(b, img, glyphs, Options { invert: !opts.invert, ..opts }, tw, th),
    ensures
        forall|row: int, col: int|
            0 <= row < th && 0 <= col < tw ==> glyph_reversed(#[trigger] a[row]@[col], b[row]@[col], glyphs),
{
    let n = glyphs.len() as int;
    assert forall|row: int, col: int| 0 <= row < th && 0 <= col < tw implies glyph_reversed(
        #[trigger] a[row]@[col],
        b[row]@[col],
        glyphs,
    ) by {
        assert(row_matches(a[row]@, img, glyphs, opts, tw, th, row));
        assert(row_matches(b[row]@, img, glyphs, Options { invert: !opts.invert, ..opts }, tw, th, row));
        let c = cell_of(cell_window(img, row, col, scale_of(img.width as int, tw), scale_of(img.height as int, th)));
        lemma_glyph_index_in_range(c.luminance, n, opts.invert, false);
        let k = glyph_index(c.luminance as int, n, opts.invert, false);
        assert(a[row]@[col].ch == glyphs[k]);
        assert(b[row]@[col].ch == glyphs[n - 1 - k]);
    }
}

/// With no size requested the grid is the source size, and each cell is
/// reduced from exactly its own source pixel.
pub proof fn lemma_full_size_cells(img: SourceImage, row: int, col: int)
    requires
        img.wf(),
        0 <= row < img.height,
        0 <= col < img.width,
    ensures
        target_of(img, None, None) == (img.width as int, img.height as int),
        cell_window(
            img,
            row,
            col,
            scale_of(img.width as int, img.width as int),
            scale_of(img.height as int, img.height as int),
        ) == seq![img.at(col, row)],
{
    let (w, h) = (img.width as int, img.height as int);
    assert(scale_of(w, w) == 1) by (nonlinear_arith)
        requires w >= 1;
    assert(scale_of(h, h) == 1) by (nonlinear_arith)
        requires h >= 1;
    let win = window_seq(img, row, row + 1, col, col + 1);
    assert(window_seq(img, row, row, col, col + 1) =~= Seq::<Rgba>::empty());
    assert(img.rows@[row]@.len() == w);
    assert(win =~= seq![img.at(col, row)]);
}

/// Two grids that both match the same conversion are equal, cell for cell:
/// the sequential and the parallel engine produce the same characters.
pub proof fn lemma_engines_agree(
    a: Seq<Vec<ColorChar>>,
    b: Seq<Vec<ColorChar>>,
    img: SourceImage,
    glyphs: Seq<char>,
    opts: Options,
    tw: int,
    th: int,
)
    requires
        art_matches(a, img, glyphs, opts, tw, th),
        art_matches(b, img, glyphs, opts, tw, th),
    ensures
        a.len() == b.len(),
        forall|row: int| 0 <= row < a.len() ==> #[trigger] a[row]@ == b[row]@,
{
    assert forall|row: int| 0 <= row < a.len() implies #[trigger] a[row]@ == b[row]@ by {
        assert(row_matches(a[row]@, img, glyphs, opts, tw, th, row));
        assert(row_matches(b[row]@, img, glyphs, opts, tw, th, row));
        assert(a[row]@ =~= b[row]@);
    }
}

} // verus!
