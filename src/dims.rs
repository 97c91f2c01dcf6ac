use vstd::prelude::*;

verus! {

/// `v` clamped to `[1, hi]`.
pub open spec fn clamp_dim(v: int, hi: int) -> int {
    if v < 1 {
        1
    } else if v > hi {
        hi
    } else {
        v
    }
}

/// `round(w * sh / sw / 2)`, halves rounded up: the height in cells that keeps
/// the proportions of an `sw` x `sh` source at width `w`, for cells twice as
/// tall as wide.
pub open spec fn height_for_width(w: int, sw: int, sh: int) -> int {
    (w * sh + sw) / (2 * sw)
}

/// `round(h * sw / sh * 2)`, halves rounded up: the width in cells that keeps
/// the proportions at height `h`.
pub open spec fn width_for_height(h: int, sw: int, sh: int) -> int {
    (4 * h * sw + sh) / (2 * sh)
}

/// The target grid `(width, height)` for the requested sizes.
pub open spec fn resolved_dims(tw: Option<u32>, th: Option<u32>, sw: int, sh: int) -> (int, int) {
    match (tw, th) {
        (None, None) => (sw, sh),
        (Some(w), None) => (clamp_dim(w as int, sw), clamp_dim(height_for_width(w as int, sw, sh), sh)),
        (None, Some(h)) => (clamp_dim(width_for_height(h as int, sw, sh), sw), clamp_dim(h as int, sh)),
        (Some(w), Some(h)) => (clamp_dim(w as int, sw), clamp_dim(h as int, sh)),
    }
}

fn clamp_u128(v: u128, hi: u32) -> (r: u32)
    requires
        hi >= 1,
    ensures
        r as int == clamp_dim(v as int, hi as int),
{
    if v < 1 {
        1
    } else if v > hi as u128 {
        hi
    } else {
        v as u32
    }
}

/// Resolves the target grid `(width, height)` from the requested width and
/// height and the source size.
pub fn demure_unwrap(target_width: Option<u32>, target_height: Option<u32>, src_width: u32, src_height: u32) -> (r: (u32, u32))
    requires
        src_width > 0,
        src_height > 0,
    ensures
        (r.0 as int, r.1 as int) == resolved_dims(target_width, target_height, src_width as int, src_height as int),
        1 <= r.0 <= src_width,
        1 <= r.1 <= src_height,
{
    let sw = src_width as u128;
    let sh = src_height as u128;
    match (target_width, target_height) {
        (None, None) => (src_width, src_height),
        (Some(w), None) => {
            proof {
                let m: int = 0xffff_ffff;
                assert(w as int * sh as int <= m * m) by (nonlinear_arith)
                    requires 0 <= w as int <= m, 0 <= sh as int <= m;
            }
            let h = (w as u128 * sh + sw) / (2 * sw);
            (clamp_u128(w as u128, src_width), clamp_u128(h, src_height))
        },
        (None, Some(h)) => {
            proof {
                let m: int = 0xffff_ffff;
                assert(4 * h as int * sw as int <= 4 * m * m) by (nonlinear_arith)
                    requires 0 <= h as int <= m, 0 <= sw as int <= m;
            }
            let w = (4 * h as u128 * sw + sh) / (2 * sh);
            (clamp_u128(w, src_width), clamp_u128(h as u128, src_height))
        },
        (Some(w), Some(h)) => (clamp_u128(w as u128, src_width), clamp_u128(h as u128, src_height)),
    }
}

/// With only a width requested, the derived height lies in `[1, sh]`, and
/// where no clamping applies it is within one half of `w * sh / sw / 2`.
pub proof fn lemma_width_only_height(w: u32, sw: u32, sh: u32)
    requires
        sw > 0,
        sh > 0,
    ensures
        ({
            let h = resolved_dims(Some(w), None, sw as int, sh as int).1;
            &&& 1 <= h <= sh
            &&& 1 <= height_for_width(w as int, sw as int, sh as int) <= sh ==> -2 * (sw as int) < 4
                * (sw as int) * h - 2 * (w as int) * (sh as int) <= 2 * (sw as int)
        }),
{
    let q = height_for_width(w as int, sw as int, sh as int);
    let n = w as int * sh as int + sw as int;
    let d = 2 * sw as int;
    assert(d * q <= n < d * q + d) by (nonlinear_arith)
        requires d > 0, q == n / d;
    assert(4 * (sw as int) * q - 2 * (w as int) * (sh as int) == 2 * (d * q - n) + 2 * (sw as int))
        by (nonlinear_arith)
        requires d == 2 * (sw as int), n == (w as int) * (sh as int) + sw as int;
}

} // verus!
