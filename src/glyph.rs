use vstd::prelude::*;
use crate::pixel::Rgb;
use crate::reduce::Cell;

verus! {

/// Characters ordered from the least to the most visual ink.
pub struct DensityRamp {
    pub glyphs: Vec<char>,
}

/// A character and its foreground colour, if any.
#[derive(Clone, Copy, Debug, PartialEq, Eq, Structural)]
pub struct ColorChar {
    pub ch: char,
    pub color: Option<Rgb>,
}

/// Conversion switches.
#[derive(Clone, Copy, Debug, PartialEq, Eq, Structural)]
pub struct Options {
    /// Reverse the ramp: dark areas take the dense end.
    pub invert: bool,
    /// Attach each cell's averaged colour to its character.
    pub colored: bool,
    /// Use the densest character everywhere; only with `colored`.
    pub uniform: bool,
}

/// A combination of switches that is refused before any pixel work.
#[derive(Clone, Copy, Debug, PartialEq, Eq, Structural)]
pub enum UsageError {
    /// `uniform` was asked for without `colored`.
    UniformWithoutColor,
}

impl Options {
    pub open spec fn wf(&self) -> bool {
        self.uniform ==> self.colored
    }

    /// Checks the switches: `uniform` needs `colored`.
    pub fn new(invert: bool, colored: bool, uniform: bool) -> (r: Result<Options, UsageError>)
        ensures
            uniform && !colored <==> r is Err,
            r is Ok ==> r->Ok_0 == (Options { invert, colored, uniform }),
            r is Err ==> r->Err_0 == UsageError::UniformWithoutColor,
    {
        if uniform && !colored {
            Err(UsageError::UniformWithoutColor)
        } else {
            Ok(Options { invert, colored, uniform })
        }
    }
}

/// The characters of the standard ramp.
pub open spec fn standard_glyphs() -> Seq<char> {
    seq![' ', '.', ':', '-', '=', '+', '*', '#', '%', '@']
}

impl DensityRamp {
    pub open spec fn wf(&self) -> bool {
        self.glyphs@.len() >= 2
    }

    /// The ten-step ramp ` .:-=+*#%@`.
    pub fn standard() -> (r: DensityRamp)
        ensures
            r.wf(),
            r.glyphs@ == standard_glyphs(),
    {
        DensityRamp { glyphs: vec![' ', '.', ':', '-', '=', '+', '*', '#', '%', '@'] }
    }

    /// A ramp of the given characters; `None` for fewer than two.
    pub fn from_glyphs(glyphs: Vec<char>) -> (r: Option<DensityRamp>)
        ensures
            glyphs@.len() >= 2 <==> r is Some,
            r is Some ==> r->Some_0.glyphs@ == glyphs@,
    {
        if glyphs.len() >= 2 {
            Some(DensityRamp { glyphs })
        } else {
            None
        }
    }
}

/// The ramp position for a luminance: `floor(lum * n / 256)`, reversed when
/// inverting; the densest position in uniform mode.
pub open spec fn glyph_index(lum: int, n: int, invert: bool, uniform: bool) -> int {
    if uniform {
        n - 1
    } else if invert {
        n - 1 - lum * n / 256
    } else {
        lum * n / 256
    }
}

/// White, the colour of every cell when colour is off.
pub open spec fn white() -> Rgb {
    Rgb { r: 255, g: 255, b: 255 }
}

/// The character and colour that a cell classifies to: the cell's averaged
/// colour, or white when colour is off.
pub open spec fn classify_spec(glyphs: Seq<char>, cell: Cell, opts: Options) -> ColorChar {
    ColorChar {
        ch: glyphs[glyph_index(cell.luminance as int, glyphs.len() as int, opts.invert, opts.uniform)],
        color: Some(if opts.colored {
            cell.color
        } else {
            white()
        }),
    }
}

proof fn lemma_index_in_range(lum: int, n: int)
    requires
        0 <= lum <= 255,
        n >= 1,
    ensures
        0 <= lum * n / 256 < n,
{
    assert(0 <= lum * n / 256 < n) by (nonlinear_arith)
        requires 0 <= lum <= 255, n >= 1;
}

/// The chosen position lies on the ramp.
pub proof fn lemma_glyph_index_in_range(lum: u8, n: int, invert: bool, uniform: bool)
    requires
        n >= 1,
    ensures
        0 <= glyph_index(lum as int, n, invert, uniform) < n,
{
    lemma_index_in_range(lum as int, n);
}

/// Picks the character and colour for one cell.
pub fn classify(ramp: &DensityRamp, cell: Cell, opts: Options) -> (c: ColorChar)
    requires
        ramp.wf(),
    ensures
        c == classify_spec(ramp.glyphs@, cell, opts),
{
    let n = ramp.glyphs.len();
    proof {
        lemma_index_in_range(cell.luminance as int, n as int);
        let m: int = 0xffff_ffff_ffff_ffff;
        assert(cell.luminance as int * n as int <= 255 * m) by (nonlinear_arith)
            requires 0 <= cell.luminance as int <= 255, 0 <= n as int <= m;
    }
    let i = ((cell.luminance as u128 * n as u128) / 256) as usize;
    let idx = if opts.uniform {
        n - 1
    } else if opts.invert {
        n - 1 - i
    } else {
        i
    };
    let color = if opts.colored {
        cell.color
    } else {
        Rgb { r: 255, g: 255, b: 255 }
    };
    ColorChar { ch: ramp.glyphs[idx], color: Some(color) }
}

/// Luminance 0 takes the least dense character, or the densest when
/// inverting.
pub proof fn lemma_darkest_glyph(glyphs: Seq<char>, cell: Cell, opts: Options)
    requires
        glyphs.len() >= 2,
        !opts.uniform,
        cell.luminance == 0,
    ensures
        classify_spec(glyphs, cell, opts).ch == if opts.invert {
            glyphs.last()
        } else {
            glyphs[0]
        },
{
}

/// On a ramp of at most 256 characters, luminance 255 takes the densest
/// character, or the least dense when inverting.
pub proof fn lemma_brightest_glyph(glyphs: Seq<char>, cell: Cell, opts: Options)
    requires
        2 <= glyphs.len() <= 256,
        !opts.uniform,
        cell.luminance == 255,
    ensures
        classify_spec(glyphs, cell, opts).ch == if opts.invert {
            glyphs[0]
        } else {
            glyphs.last()
        },
{
    let n = glyphs.len() as int;
    assert(255 * n / 256 == n - 1) by (nonlinear_arith)
        requires 2 <= n <= 256;
}

/// Outside uniform mode, inverting is the same as classifying over the
/// reversed ramp; the colour is left as it is.
pub proof fn lemma_invert_reverses(glyphs: Seq<char>, cell: Cell, opts: Options)
    requires
        glyphs.len() >= 2,
        !opts.uniform,
    ensures
        classify_spec(glyphs, cell, Options { invert: !opts.invert, ..opts }) == classify_spec(
            glyphs.reverse(),
            cell,
            opts,
        ),
{
    let n = glyphs.len() as int;
    lemma_index_in_range(cell.luminance as int, n);
}

} // verus!
