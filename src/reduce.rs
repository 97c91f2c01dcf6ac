use vstd::prelude::*;
use crate::pixel::{Rgba, Rgb, penalty_of, calc_penalty};

verus! {

/// A dense grid of source samples, `rows[y][x]`.
pub struct SourceImage {
    pub width: usize,
    pub height: usize,
    pub rows: Vec<Vec<Rgba>>,
}

/// One target cell: the averaged luminance and colour of its source window.
#[derive(Clone, Copy, Debug, PartialEq, Eq, Structural)]
pub struct Cell {
    pub luminance: u8,
    pub color: Rgb,
}

impl SourceImage {
    /// Both dimensions are positive, fit in `u32`, and the rows match them.
    pub open spec fn wf(&self) -> bool {
        &&& 0 < self.width <= u32::MAX
        &&& 0 < self.height <= u32::MAX
        &&& self.rows@.len() == self.height
        &&& forall|y: int| 0 <= y < self.height ==> #[trigger] self.rows@[y]@.len() == self.width
    }

    pub open spec fn at(&self, x: int, y: int) -> Rgba {
        self.rows@[y]@[x]
    }
}

/// `ceil(s / t)`.
pub open spec fn scale_of(s: int, t: int) -> int {
    (s + t - 1) / t
}

/// The samples of rows `[y0, y1)` and columns `[x0, x1)`, in row-major order.
pub open spec fn window_seq(img: SourceImage, y0: int, y1: int, x0: int, x1: int) -> Seq<Rgba>
    decreases y1 - y0,
{
    if y1 <= y0 {
        Seq::empty()
    } else {
        window_seq(img, y0, y1 - 1, x0, x1) + img.rows@[y1 - 1]@.subrange(x0, x1)
    }
}

pub open spec fn min_int(a: int, b: int) -> int {
    if a < b {
        a
    } else {
        b
    }
}

/// The source window of target cell (`row`, `col`) for the given scales:
/// rows `[row * sy, row * sy + sy)` and columns `[col * sx, col * sx + sx)`,
/// clipped to the source bounds.
pub open spec fn cell_window(img: SourceImage, row: int, col: int, sx: int, sy: int) -> Seq<Rgba> {
    window_seq(
        img,
        min_int(row * sy, img.height as int),
        min_int(row * sy + sy, img.height as int),
        min_int(col * sx, img.width as int),
        min_int(col * sx + sx, img.width as int),
    )
}

/// Sum of `f` over the samples.
pub open spec fn sample_sum(s: Seq<Rgba>, f: spec_fn(Rgba) -> int) -> int
    decreases s.len(),
{
    if s.len() == 0 {
        0
    } else {
        sample_sum(s.drop_last(), f) + f(s.last())
    }
}

pub open spec fn penalty_total(s: Seq<Rgba>) -> int {
    sample_sum(s, |p: Rgba| penalty_of(p))
}

pub open spec fn red_total(s: Seq<Rgba>) -> int {
    sample_sum(s, |p: Rgba| p.r as int)
}

pub open spec fn green_total(s: Seq<Rgba>) -> int {
    sample_sum(s, |p: Rgba| p.g as int)
}

pub open spec fn blue_total(s: Seq<Rgba>) -> int {
    sample_sum(s, |p: Rgba| p.b as int)
}

/// `s / n` rounded to the nearest integer, ties to even.
pub open spec fn round_half_even(s: int, n: int) -> int {
    let q = s / n;
    let rem = s % n;
    if 2 * rem > n {
        q + 1
    } else if 2 * rem == n && q % 2 == 1 {
        q + 1
    } else {
        q
    }
}

/// The cell that a window reduces to: truncated mean penalty, and the
/// per-channel mean colour rounded half to even. A window clipped away
/// entirely gives a black cell of luminance 0.
pub open spec fn cell_of(s: Seq<Rgba>) -> Cell {
    let n = s.len() as int;
    if n == 0 {
        Cell { luminance: 0, color: Rgb { r: 0, g: 0, b: 0 } }
    } else {
    Cell {
        luminance: (penalty_total(s) / n) as u8,
        color: Rgb {
            r: round_half_even(red_total(s), n) as u8,
            g: round_half_even(green_total(s), n) as u8,
            b: round_half_even(blue_total(s), n) as u8,
        },
    }
    }
}

proof fn lemma_sum_step(s: Seq<Rgba>, i: int, f: spec_fn(Rgba) -> int)
    requires
        0 <= i < s.len(),
    ensures
        sample_sum(s.take(i + 1), f) == sample_sum(s.take(i), f) + f(s[i]),
{
    assert(s.take(i + 1).drop_last() =~= s.take(i));
}

proof fn lemma_sum_bound(s: Seq<Rgba>, f: spec_fn(Rgba) -> int)
    requires
        forall|p: Rgba| 0 <= #[trigger] f(p) <= 255,
    ensures
        0 <= sample_sum(s, f) <= 255 * s.len(),
    decreases s.len(),
{
    if s.len() > 0 {
        lemma_sum_bound(s.drop_last(), f);
    }
}

proof fn lemma_round_bound(s: int, n: int)
    requires
        n > 0,
        0 <= s <= 255 * n,
    ensures
        0 <= round_half_even(s, n) <= 255,
{
    let q = s / n;
    let rem = s % n;
    assert(s == q * n + rem && 0 <= rem < n) by (nonlinear_arith)
        requires n > 0, q == s / n, rem == s % n;
    assert(0 <= q <= 255) by (nonlinear_arith)
        requires n > 0, s == q * n + rem, 0 <= rem < n, 0 <= s <= 255 * n;
    if q == 255 {
        assert(rem == 0) by (nonlinear_arith)
            requires s == q * n + rem, q == 255, 0 <= rem, s <= 255 * n;
    }
}

fn round_div(s: u128, n: u128) -> (r: u8)
    requires
        n > 0,
        s <= 255 * n,
    ensures
        r as int == round_half_even(s as int, n as int),
{
    proof {
        lemma_round_bound(s as int, n as int);
    }
    let q = s / n;
    let rem = s % n;
    let r = if rem > n - rem {
        q + 1
    } else if rem == n - rem && q % 2 == 1 {
        q + 1
    } else {
        q
    };
    r as u8
}

/// Reduces a non-empty list of samples to one cell.
pub fn average(samples: &Vec<Rgba>) -> (c: Cell)
    requires
        samples@.len() > 0,
    ensures
        c == cell_of(samples@),
{
    let s = Ghost(samples@);
    let n = samples.len();
    let mut lum: u128 = 0;
    let mut red: u128 = 0;
    let mut green: u128 = 0;
    let mut blue: u128 = 0;
    let mut i: usize = 0;
    while i < n
        invariant
            n == s@.len(),
            s@ == samples@,
            0 <= i <= n,
            lum == penalty_total(s@.take(i as int)),
            red == red_total(s@.take(i as int)),
            green == green_total(s@.take(i as int)),
            blue == blue_total(s@.take(i as int)),
        decreases n - i,
    {
        let p = samples[i];
        proof {
            lemma_sum_step(s@, i as int, |p: Rgba| penalty_of(p));
            lemma_sum_step(s@, i as int, |p: Rgba| p.r as int);
            lemma_sum_step(s@, i as int, |p: Rgba| p.g as int);
            lemma_sum_step(s@, i as int, |p: Rgba| p.b as int);
            lemma_sum_bound(s@.take(i as int), |p: Rgba| penalty_of(p));
            lemma_sum_bound(s@.take(i as int), |p: Rgba| p.r as int);
            lemma_sum_bound(s@.take(i as int), |p: Rgba| p.g as int);
            lemma_sum_bound(s@.take(i as int), |p: Rgba| p.b as int);
            assert(255 * i < 255 * 0x1_0000_0000_0000_0000) by (nonlinear_arith)
                requires i < 0x1_0000_0000_0000_0000;
        }
        lum = lum + calc_penalty(p) as u128;
        red = red + p.r as u128;
        green = green + p.g as u128;
        blue = blue + p.b as u128;
        i = i + 1;
    }
    proof {
        assert(s@.take(n as int) =~= s@);
        lemma_sum_bound(s@, |p: Rgba| penalty_of(p));
        lemma_sum_bound(s@, |p: Rgba| p.r as int);
        lemma_sum_bound(s@, |p: Rgba| p.g as int);
        lemma_sum_bound(s@, |p: Rgba| p.b as int);
        assert(lum as int / (n as int) <= 255) by (nonlinear_arith)
            requires lum <= 255 * n, n > 0;
    }
    let luminance = (lum / n as u128) as u8;
    Cell {
        luminance,
        color: Rgb { r: round_div(red, n as u128), g: round_div(green, n as u128), b: round_div(blue, n as u128) },
    }
}

proof fn lemma_sum_const(s: Seq<Rgba>, f: spec_fn(Rgba) -> int, v: int)
    requires
        forall|i: int| 0 <= i < s.len() ==> f(#[trigger] s[i]) == v,
    ensures
        sample_sum(s, f) == v * s.len(),
    decreases s.len(),
{
    if s.len() > 0 {
        lemma_sum_const(s.drop_last(), f, v);
        assert(v * (s.len() - 1) + v == v * s.len()) by (nonlinear_arith);
    }
}

/// A non-empty window of opaque black samples reduces to luminance 0 and
/// black.
pub proof fn lemma_black_window(s: Seq<Rgba>)
    requires
        s.len() > 0,
        forall|i: int| 0 <= i < s.len() ==> #[trigger] s[i] == (Rgba { r: 0, g: 0, b: 0, a: 255 }),
    ensures
        cell_of(s) == (Cell { luminance: 0, color: Rgb { r: 0, g: 0, b: 0 } }),
{
    lemma_sum_const(s, |p: Rgba| penalty_of(p), 0);
    lemma_sum_const(s, |p: Rgba| p.r as int, 0);
    lemma_sum_const(s, |p: Rgba| p.g as int, 0);
    lemma_sum_const(s, |p: Rgba| p.b as int, 0);
}

/// A non-empty window of opaque white samples reduces to luminance 255 and
/// white.
pub proof fn lemma_white_window(s: Seq<Rgba>)
    requires
        s.len() > 0,
        forall|i: int| 0 <= i < s.len() ==> #[trigger] s[i] == (Rgba { r: 255, g: 255, b: 255, a: 255 }),
    ensures
        cell_of(s) == (Cell { luminance: 255, color: Rgb { r: 255, g: 255, b: 255 } }),
{
    let n = s.len() as int;
    lemma_sum_const(s, |p: Rgba| penalty_of(p), 255);
    lemma_sum_const(s, |p: Rgba| p.r as int, 255);
    lemma_sum_const(s, |p: Rgba| p.g as int, 255);
    lemma_sum_const(s, |p: Rgba| p.b as int, 255);
    assert((255 * n) / n == 255 && (255 * n) % n == 0) by (nonlinear_arith)
        requires n > 0;
}

/// The number of samples in a window is the product of its side lengths.
pub proof fn lemma_window_len(img: SourceImage, y0: int, y1: int, x0: int, x1: int)
    requires
        img.wf(),
        0 <= y0 <= y1 <= img.height,
        0 <= x0 <= x1 <= img.width,
    ensures
        window_seq(img, y0, y1, x0, x1).len() == (y1 - y0) * (x1 - x0),
    decreases y1 - y0,
{
    if y1 > y0 {
        lemma_window_len(img, y0, y1 - 1, x0, x1);
        assert(img.rows@[y1 - 1]@.len() == img.width);
        assert(window_seq(img, y0, y1, x0, x1) == window_seq(img, y0, y1 - 1, x0, x1)
            + img.rows@[y1 - 1]@.subrange(x0, x1));
        assert((y1 - 1 - y0) * (x1 - x0) + (x1 - x0) == (y1 - y0) * (x1 - x0)) by (nonlinear_arith);
    } else {
        assert((y1 - y0) * (x1 - x0) == 0) by (nonlinear_arith)
            requires y1 == y0;
    }
}

/// A cell whose window starts inside the source aggregates `sx * sy`
/// samples, fewer only where the window is clipped at the right or bottom
/// edge, and never none.
pub proof fn lemma_cell_sample_count(img: SourceImage, row: int, col: int, sx: int, sy: int)
    requires
        img.wf(),
        0 <= row,
        0 <= col,
        sx >= 1,
        sy >= 1,
        0 <= row * sy < img.height,
        0 <= col * sx < img.width,
    ensures
        cell_window(img, row, col, sx, sy).len() == (min_int(row * sy + sy, img.height as int) - row * sy) * (
        min_int(col * sx + sx, img.width as int) - col * sx),
        cell_window(img, row, col, sx, sy).len() > 0,
        row * sy + sy <= img.height && col * sx + sx <= img.width ==> cell_window(img, row, col, sx, sy).len()
            == sx * sy,
{
    let y1 = min_int(row * sy + sy, img.height as int);
    let x1 = min_int(col * sx + sx, img.width as int);
    lemma_window_len(img, row * sy, y1, col * sx, x1);
    assert((y1 - row * sy) * (x1 - col * sx) > 0) by (nonlinear_arith)
        requires y1 > row * sy, x1 > col * sx;
    if row * sy + sy <= img.height && col * sx + sx <= img.width {
        assert((y1 - row * sy) * (x1 - col * sx) == sx * sy) by (nonlinear_arith)
            requires y1 == row * sy + sy, x1 == col * sx + sx;
    }
}

/// Collects the samples of rows `[y0, y1)` and columns `[x0, x1)`.
pub fn collect_window(img: &SourceImage, y0: usize, y1: usize, x0: usize, x1: usize) -> (w: Vec<Rgba>)
    requires
        img.wf(),
        y0 <= y1 <= img.height,
        x0 <= x1 <= img.width,
    ensures
        w@ == window_seq(*img, y0 as int, y1 as int, x0 as int, x1 as int),
{
    let mut buf: Vec<Rgba> = Vec::new();
    let mut y: usize = y0;
    while y < y1
        invariant
            img.wf(),
            y0 <= y <= y1 <= img.height,
            x0 <= x1 <= img.width,
            buf@ == window_seq(*img, y0 as int, y as int, x0 as int, x1 as int),
        decreases y1 - y,
    {
        let row = &img.rows[y];
        assert(row@.len() == img.width);
        let mut x: usize = x0;
        while x < x1
            invariant
                img.wf(),
                y0 <= y < y1 <= img.height,
                x0 <= x <= x1 <= img.width,
                row@ == img.rows@[y as int]@,
                row@.len() == img.width,
                buf@ == window_seq(*img, y0 as int, y as int, x0 as int, x1 as int)
                    + row@.subrange(x0 as int, x as int),
            decreases x1 - x,
        {
            buf.push(row[x]);
            proof {
                assert(row@.subrange(x0 as int, x + 1) =~= row@.subrange(x0 as int, x as int).push(row@[x as int]));
            }
            x = x + 1;
        }
        y = y + 1;
    }
    buf
}

/// The cell of target position (`row`, `col`) for scales `sx`, `sy`.
pub fn reduce_cell(img: &SourceImage, row: usize, col: usize, sx: usize, sy: usize) -> (c: Cell)
    requires
        img.wf(),
    ensures
        c == cell_of(cell_window(*img, row as int, col as int, sx as int, sy as int)),
{
    proof {
        let m: int = 0xffff_ffff_ffff_ffff;
        assert(row as int * sy as int <= m * m) by (nonlinear_arith)
            requires 0 <= row as int <= m, 0 <= sy as int <= m;
        assert(col as int * sx as int <= m * m) by (nonlinear_arith)
            requires 0 <= col as int <= m, 0 <= sx as int <= m;
    }
    let h = img.height as u128;
    let w = img.width as u128;
    let top = row as u128 * sy as u128;
    let left = col as u128 * sx as u128;
    let y0 = if top < h { top } else { h };
    let bottom = top + sy as u128;
    let y1 = if bottom < h { bottom } else { h };
    let x0 = if left < w { left } else { w };
    let right = left + sx as u128;
    let x1 = if right < w { right } else { w };
    let samples = collect_window(img, y0 as usize, y1 as usize, x0 as usize, x1 as usize);
    proof {
        lemma_window_len(*img, y0 as int, y1 as int, x0 as int, x1 as int);
    }
    if y0 == y1 || x0 == x1 {
        proof {
            assert(0 * (x1 - x0) == 0 && (y1 - y0) * 0 == 0) by (nonlinear_arith);
        }
        Cell { luminance: 0, color: Rgb { r: 0, g: 0, b: 0 } }
    } else {
        proof {
            assert((y1 - y0) * (x1 - x0) > 0) by (nonlinear_arith)
                requires y1 > y0, x1 > x0;
        }
        average(&samples)
    }
}

} // verus!
